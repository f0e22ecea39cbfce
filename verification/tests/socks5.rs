use rnc::socks5::{describe_reply, FailureKind, Socks5Error, Socks5Handshake, Socks5Step};

fn exchange(step: Socks5Step) -> (Vec<u8>, usize) {
    match step {
        Socks5Step::Exchange { send, read } => (send, read),
        other => panic!("expected an exchange, got {other:?}"),
    }
}

#[test]
fn handshake_with_ipv4_reply_connects() {
    let mut hs = Socks5Handshake::new("127.0.0.1", 4444);
    let (send, read) = exchange(hs.step(&[]));
    assert_eq!(send, vec![5, 1, 0]);
    assert_eq!(read, 2);
    let (send, read) = exchange(hs.step(&[5, 0]));
    let mut req = vec![5, 1, 0, 3, 9];
    req.extend_from_slice(b"127.0.0.1");
    req.extend_from_slice(&4444u16.to_be_bytes());
    assert_eq!(send, req);
    assert_eq!(read, 4);
    let (send, read) = exchange(hs.step(&[5, 0, 0, 1]));
    assert!(send.is_empty());
    assert_eq!(read, 6);
    assert!(matches!(hs.step(&[0, 0, 0, 0, 0, 0]), Socks5Step::Connected));
}

#[test]
fn handshake_with_domain_reply_reads_name_then_port() {
    let mut hs = Socks5Handshake::new("example.com", 80);
    exchange(hs.step(&[]));
    exchange(hs.step(&[5, 0]));
    let (_, read) = exchange(hs.step(&[5, 0, 0, 3]));
    assert_eq!(read, 1);
    let (send, read) = exchange(hs.step(&[4]));
    assert!(send.is_empty());
    assert_eq!(read, 6);
    assert!(matches!(hs.step(b"abcd\x00\x50"), Socks5Step::Connected));
}

#[test]
fn handshake_with_ipv6_reply_reads_eighteen_bytes() {
    let mut hs = Socks5Handshake::new("h", 1);
    exchange(hs.step(&[]));
    exchange(hs.step(&[5, 0]));
    let (_, read) = exchange(hs.step(&[5, 0, 0, 4]));
    assert_eq!(read, 18);
}

fn failure(step: Socks5Step) -> Socks5Error {
    match step {
        Socks5Step::Failed(e) => e,
        other => panic!("expected a failure, got {other:?}"),
    }
}

#[test]
fn handshake_failures() {
    let mut hs = Socks5Handshake::new("h", 1);
    exchange(hs.step(&[]));
    assert_eq!(failure(hs.step(&[4, 0])), Socks5Error::NotSocks5);
    assert_eq!(hs.expected(), 0);
    assert_eq!(failure(hs.step(&[])), Socks5Error::NotSocks5);

    let mut hs = Socks5Handshake::new("h", 1);
    exchange(hs.step(&[]));
    assert_eq!(failure(hs.step(&[5, 2])), Socks5Error::AuthRequired);

    let long = "a".repeat(256);
    let mut hs = Socks5Handshake::new(&long, 1);
    exchange(hs.step(&[]));
    assert_eq!(failure(hs.step(&[5, 0])), Socks5Error::HostnameTooLong);

    let mut hs = Socks5Handshake::new("h", 1);
    exchange(hs.step(&[]));
    exchange(hs.step(&[5, 0]));
    assert_eq!(failure(hs.step(&[4, 0, 0, 1])), Socks5Error::MalformedReply);

    let mut hs = Socks5Handshake::new("h", 1);
    exchange(hs.step(&[]));
    exchange(hs.step(&[5, 0]));
    assert_eq!(failure(hs.step(&[5, 5, 0, 1])), Socks5Error::Rejected(5));

    let mut hs = Socks5Handshake::new("h", 1);
    exchange(hs.step(&[]));
    exchange(hs.step(&[5, 0]));
    assert_eq!(failure(hs.step(&[5, 0, 0, 9])), Socks5Error::UnknownAddressType);
}

#[test]
fn hostname_of_255_bytes_is_accepted() {
    let name = "b".repeat(255);
    let mut hs = Socks5Handshake::new(&name, 443);
    exchange(hs.step(&[]));
    let (send, _) = exchange(hs.step(&[5, 0]));
    assert_eq!(send.len(), 255 + 7);
    assert_eq!(send[4], 255);
    assert_eq!(&send[send.len() - 2..], &[1, 187]);
}

#[test]
fn reply_descriptions() {
    assert_eq!(describe_reply(1), "SOCKS5 proxy rejected the request: general SOCKS server failure");
    assert_eq!(describe_reply(5), "SOCKS5 proxy rejected the request: connection refused");
    assert_eq!(describe_reply(8), "SOCKS5 proxy rejected the request: address type not supported");
    assert_eq!(describe_reply(0x42), "SOCKS5 proxy rejected the request: unknown error");
}

#[test]
fn error_messages_and_kinds() {
    assert_eq!(Socks5Error::NotSocks5.message(), "proxy did not speak SOCKS5");
    assert_eq!(Socks5Error::NotSocks5.kind(), FailureKind::InvalidData);
    assert_eq!(
        Socks5Error::AuthRequired.message(),
        "SOCKS5 proxy requires authentication, which is not supported"
    );
    assert_eq!(Socks5Error::AuthRequired.kind(), FailureKind::PermissionDenied);
    assert_eq!(Socks5Error::HostnameTooLong.kind(), FailureKind::InvalidInput);
    assert_eq!(Socks5Error::MalformedReply.message(), "malformed SOCKS5 reply");
    assert_eq!(Socks5Error::Rejected(2).message(), "SOCKS5 proxy rejected the request: connection not allowed by ruleset");
    assert_eq!(Socks5Error::Rejected(2).kind(), FailureKind::Other);
    assert_eq!(Socks5Error::UnknownAddressType.message(), "unknown SOCKS5 address type in reply");
}
