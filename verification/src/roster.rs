//! Membership of a broadcast room: who is connected, who receives a
//! message, and who is dropped once a delivery to them fails.

use vstd::prelude::*;

use std::collections::HashSet;

verus! {

broadcast use vstd::std_specs::hash::group_hash_axioms;

/// Holds of every id but `id`.
pub open spec fn other_than(id: u64) -> spec_fn(u64) -> bool {
    |m: u64| m != id
}

/// The members kept after a message from `sender`: the sender, and everyone
/// whose delivery did not fail.
pub open spec fn survivors(members: Set<u64>, sender: u64, failed: Seq<u64>) -> Set<u64> {
    members.difference(failed.to_set().remove(sender))
}

proof fn lemma_filter_subset(s: Seq<u64>, pred: spec_fn(u64) -> bool, x: u64)
    requires
        s.filter(pred).contains(x),
    ensures
        s.contains(x),
        pred(x),
    decreases s.len(),
{
    reveal_with_fuel(Seq::<_>::filter, 1);
    if s.len() > 0 {
        let sub = s.drop_last().filter(pred);
        if sub.contains(x) {
            lemma_filter_subset(s.drop_last(), pred, x);
            let k = choose|k: int| 0 <= k < s.drop_last().len() && s.drop_last()[k] == x;
            assert(s[k] == x);
        } else {
            let k = choose|k: int| 0 <= k < s.filter(pred).len() && s.filter(pred)[k] == x;
            if pred(s.last()) {
                assert(s.filter(pred) == sub.push(s.last()));
                if k < sub.len() {
                    assert(sub[k] == x);
                }
            } else {
                assert(sub[k] == x);
            }
        }
    }
}

proof fn lemma_filter_no_duplicates(s: Seq<u64>, pred: spec_fn(u64) -> bool)
    requires
        s.no_duplicates(),
    ensures
        s.filter(pred).no_duplicates(),
    decreases s.len(),
{
    reveal_with_fuel(Seq::<_>::filter, 1);
    if s.len() > 0 {
        let d = s.drop_last();
        assert(d.no_duplicates()) by {
            assert forall|i: int, j: int| 0 <= i < d.len() && 0 <= j < d.len() && i != j implies d[i] != d[j] by {
                assert(d[i] == s[i] && d[j] == s[j]);
            }
        }
        lemma_filter_no_duplicates(d, pred);
        let sub = d.filter(pred);
        if pred(s.last()) {
            if sub.contains(s.last()) {
                lemma_filter_subset(d, pred, s.last());
                let k = choose|k: int| 0 <= k < d.len() && d[k] == s.last();
                assert(s[k] == s[s.len() - 1]);
            }
            let t = sub.push(s.last());
            assert forall|i: int, j: int| 0 <= i < t.len() && 0 <= j < t.len() && i != j implies t[i] != t[j] by {
                if i < sub.len() && j < sub.len() {
                } else if i < sub.len() {
                    assert(sub.contains(t[i]));
                } else if j < sub.len() {
                    assert(sub.contains(t[j]));
                }
            }
        }
    }
}

/// The members of a broadcast room.
pub struct Roster {
    members: HashSet<u64>,
}

impl Roster {
    /// The members.
    pub closed spec fn members(&self) -> Set<u64> {
        self.members@
    }

    /// An empty room.
    pub fn new() -> (r: Roster)
        ensures
            r.members() == Set::<u64>::empty(),
    {
        Roster { members: HashSet::new() }
    }

    /// Adds `id` (a member already present stays once).
    pub fn join(&mut self, id: u64)
        ensures
            final(self).members() == old(self).members().insert(id),
    {
        self.members.insert(id);
    }

    /// Whether `id` is a member.
    pub fn contains(&self, id: u64) -> (b: bool)
        ensures
            b == self.members().contains(id),
    {
        self.members.contains(&id)
    }

    /// The members a message from `sender` goes to: everyone else, each once
    /// (in no particular order).
    pub fn recipients(&self, sender: u64) -> (r: Vec<u64>)
        ensures
            r@.to_set() == self.members().remove(sender),
            r@.no_duplicates(),
            !r@.contains(sender),
    {
        let ghost pred = other_than(sender);
        let mut r: Vec<u64> = Vec::new();
        let ghost all = vstd::std_specs::iter::IteratorSpec::remaining(&self.members.iter()).unref();
        for x in it: self.members.iter()
            invariant
                it.seq().unref() == all,
                it.seq().unref().no_duplicates(),
                it.seq().unref().to_set() == self.members@,
                r@ == it.seq().unref().take(it.index() as int).filter(pred),
                pred == other_than(sender),
        {
            let ghost i = it.index();
            reveal_with_fuel(Seq::<_>::filter, 1);
            if *x != sender {
                r.push(*x);
            }
            assert(all[i as int] == *x);
            assert(all.take(i + 1).drop_last() =~= all.take(i as int));
        }
        assert(all.take(all.len() as int) =~= all);
        proof {
            lemma_filter_no_duplicates(all, pred);
            assert forall|m: u64| #[trigger] r@.to_set().contains(m) == self.members@.remove(sender).contains(m) by {
                if r@.contains(m) {
                    lemma_filter_subset(all, pred, m);
                }
                if self.members@.remove(sender).contains(m) {
                    assert(all.contains(m));
                    let k = choose|k: int| 0 <= k < all.len() && all[k] == m;
                    all.lemma_filter_contains(pred, k);
                }
            }
            assert(r@.to_set() =~= self.members@.remove(sender));
            if r@.contains(sender) {
                lemma_filter_subset(all, pred, sender);
            }
        }
        r
    }

    /// After a message from `sender`: drops every member whose delivery
    /// failed (listed in `failed`); the sender stays.
    pub fn retain_delivered(&mut self, sender: u64, failed: &Vec<u64>)
        ensures
            final(self).members() == survivors(old(self).members(), sender, failed@),
            old(self).members().contains(sender) ==> final(self).members().contains(sender),
            forall|m: u64| #[trigger] final(self).members().contains(m) <==> (old(self).members().contains(m) && (m
                == sender || !failed@.contains(m))),
    {
        let ghost start = self.members@;
        let mut i: usize = 0;
        while i < failed.len()
            invariant
                i <= failed@.len(),
                self.members@ == start.difference(failed@.take(i as int).to_set().remove(sender)),
            decreases failed@.len() - i,
        {
            let f = failed[i];
            if f != sender {
                self.members.remove(&f);
            }
            proof {
                let t0 = failed@.take(i as int);
                let t1 = failed@.take(i + 1);
                assert forall|m: u64| #[trigger] t1.contains(m) == (t0.contains(m) || m == f) by {
                    if t1.contains(m) {
                        let k = choose|k: int| 0 <= k < t1.len() && t1[k] == m;
                        if k < t0.len() {
                            assert(t0[k] == m);
                        }
                    }
                    if t0.contains(m) {
                        let k = choose|k: int| 0 <= k < t0.len() && t0[k] == m;
                        assert(t1[k] == m);
                    }
                    if m == f {
                        assert(t1[i as int] == m);
                    }
                }
                assert(self.members@ =~= start.difference(t1.to_set().remove(sender)));
            }
            i = i + 1;
        }
        assert(failed@.take(i as int) =~= failed@);
        proof {
            law_failed_members_are_dropped(start, sender, failed@);
        }
    }

    /// Removes `id`, if present.
    pub fn leave(&mut self, id: u64)
        ensures
            final(self).members() == old(self).members().remove(id),
    {
        self.members.remove(&id);
    }
}

/// After a message from `sender`, a member stays exactly when it was a
/// member and either is the sender or is not among the failed deliveries:
/// every failed member other than the sender is gone, everyone else stays.
pub proof fn law_failed_members_are_dropped(members: Set<u64>, sender: u64, failed: Seq<u64>)
    ensures
        forall|m: u64| #[trigger] survivors(members, sender, failed).contains(m) <==> (members.contains(m) && (m
            == sender || !failed.contains(m))),
        forall|i: int| 0 <= i < failed.len() && failed[i] != sender ==> !#[trigger] survivors(
            members,
            sender,
            failed,
        ).contains(failed[i]),
{
    assert forall|i: int| 0 <= i < failed.len() && failed[i] != sender implies !#[trigger] survivors(
        members,
        sender,
        failed,
    ).contains(failed[i]) by {
        assert(failed.contains(failed[i]));
    }
}

} // verus!
