use rnc::net::{format_addr, only_real_errors, read_action, read_timed_out, ConnectRetry, IoErrorClass, PumpAction};

#[test]
fn format_addr_plain_and_ipv6() {
    assert_eq!(format_addr("127.0.0.1", 4444), "127.0.0.1:4444");
    assert_eq!(format_addr("example.com", 0), "example.com:0");
    assert_eq!(format_addr("::1", 80), "[::1]:80");
    assert_eq!(format_addr("[::1]", 80), "[::1]:80");
    assert_eq!(format_addr("", 65535), ":65535");
}

#[test]
fn idle_timeouts_are_quiet() {
    let ok: Result<u64, (IoErrorClass, &str)> = Ok(5);
    assert_eq!(only_real_errors(ok), Ok(()));
    assert_eq!(only_real_errors::<u64, &str>(Err((IoErrorClass::WouldBlock, "a"))), Ok(()));
    assert_eq!(only_real_errors::<u64, &str>(Err((IoErrorClass::TimedOut, "b"))), Ok(()));
    assert_eq!(only_real_errors::<u64, &str>(Err((IoErrorClass::Other, "c"))), Err("c"));
    assert_eq!(only_real_errors::<u64, &str>(Err((IoErrorClass::Interrupted, "d"))), Err("d"));
}

#[test]
fn read_timeout_decision() {
    assert!(!read_timed_out(10, None));
    assert!(!read_timed_out(9, Some(10)));
    assert!(read_timed_out(10, Some(10)));
}

#[test]
fn retries_are_bounded() {
    let mut r = ConnectRetry::new(2);
    assert!(r.on_failure());
    assert_eq!(r.attempt(), 1);
    assert!(r.on_failure());
    assert_eq!(r.attempt(), 2);
    assert!(!r.on_failure());
    assert_eq!(r.attempt(), 2);

    let mut none = ConnectRetry::new(0);
    assert!(!none.on_failure());
}

#[test]
fn pump_read_decisions() {
    assert_eq!(read_action(Ok(0)), PumpAction::Finish);
    assert_eq!(read_action(Ok(7)), PumpAction::Forward(7));
    assert_eq!(read_action(Err(IoErrorClass::Interrupted)), PumpAction::Retry);
    assert_eq!(read_action(Err(IoErrorClass::WouldBlock)), PumpAction::Fail);
    assert_eq!(read_action(Err(IoErrorClass::Other)), PumpAction::Fail);
}
