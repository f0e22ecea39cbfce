use rnc::roster::Roster;

fn sorted(mut v: Vec<u64>) -> Vec<u64> {
    v.sort();
    v
}

#[test]
fn broadcast_goes_to_everyone_else() {
    let mut r = Roster::new();
    r.join(1);
    r.join(2);
    r.join(3);
    r.join(2);
    assert_eq!(sorted(r.recipients(2)), vec![1, 3]);
    assert_eq!(sorted(r.recipients(9)), vec![1, 2, 3]);
}

#[test]
fn failed_deliveries_are_dropped_but_sender_stays() {
    let mut r = Roster::new();
    r.join(1);
    r.join(2);
    r.join(3);
    r.retain_delivered(1, &vec![1, 3]);
    assert!(r.contains(1));
    assert!(r.contains(2));
    assert!(!r.contains(3));
    assert_eq!(r.recipients(1), vec![2]);
    r.leave(2);
    assert!(!r.contains(2));
    assert_eq!(r.recipients(1), Vec::<u64>::new());
}
