//! The client side of a SOCKS5 (RFC 1928) CONNECT handshake without
//! authentication, as a state machine: each step takes the bytes the proxy
//! sent and says what to send next and how many bytes to read.

use vstd::prelude::*;

use vstd::string::StringSliceAdditionalSpecFns;

verus! {

/// SOCKS protocol version byte.
pub const VERSION: u8 = 5u8;

/// Why a SOCKS5 handshake failed.
#[derive(Debug, Clone, Copy, PartialEq, Eq, Structural)]
pub enum Socks5Error {
    /// The proxy's method reply did not carry version 5.
    NotSocks5,
    /// The proxy did not accept "no authentication".
    AuthRequired,
    /// The destination name is longer than the 255 bytes SOCKS5 can carry.
    HostnameTooLong,
    /// The proxy's CONNECT reply did not carry version 5.
    MalformedReply,
    /// The proxy refused the CONNECT with this reply code.
    Rejected(u8),
    /// The CONNECT reply named an address type other than IPv4, IPv6 or a domain.
    UnknownAddressType,
}

/// The I/O error class a handshake failure is reported under.
#[derive(Debug, Clone, Copy, PartialEq, Eq, Structural)]
pub enum FailureKind {
    InvalidData,
    PermissionDenied,
    InvalidInput,
    Other,
}

/// The reason text for a SOCKS5 reply code.
pub open spec fn reply_reason(code: u8) -> Seq<char> {
    if code == 1 {
        "general SOCKS server failure"@
    } else if code == 2 {
        "connection not allowed by ruleset"@
    } else if code == 3 {
        "network unreachable"@
    } else if code == 4 {
        "host unreachable"@
    } else if code == 5 {
        "connection refused"@
    } else if code == 6 {
        "TTL expired"@
    } else if code == 7 {
        "command not supported"@
    } else if code == 8 {
        "address type not supported"@
    } else {
        "unknown error"@
    }
}

/// The message for a refused CONNECT with reply code `code`.
pub open spec fn rejection_message(code: u8) -> Seq<char> {
    "SOCKS5 proxy rejected the request: "@ + reply_reason(code)
}

fn reason_text(code: u8) -> (s: &'static str)
    ensures
        s@ == reply_reason(code),
{
    if code == 1 {
        "general SOCKS server failure"
    } else if code == 2 {
        "connection not allowed by ruleset"
    } else if code == 3 {
        "network unreachable"
    } else if code == 4 {
        "host unreachable"
    } else if code == 5 {
        "connection refused"
    } else if code == 6 {
        "TTL expired"
    } else if code == 7 {
        "command not supported"
    } else if code == 8 {
        "address type not supported"
    } else {
        "unknown error"
    }
}

/// Describes a SOCKS5 reply code for the user.
pub fn describe_reply(code: u8) -> (s: String)
    ensures
        s@ == rejection_message(code),
{
    let mut s = "SOCKS5 proxy rejected the request: ".to_owned();
    s.append(reason_text(code));
    s
}

/// The message each failure is reported with.
pub open spec fn error_message(e: Socks5Error) -> Seq<char> {
    match e {
        Socks5Error::NotSocks5 => "proxy did not speak SOCKS5"@,
        Socks5Error::AuthRequired => "SOCKS5 proxy requires authentication, which is not supported"@,
        Socks5Error::HostnameTooLong => "destination hostname too long for SOCKS5"@,
        Socks5Error::MalformedReply => "malformed SOCKS5 reply"@,
        Socks5Error::Rejected(code) => rejection_message(code),
        Socks5Error::UnknownAddressType => "unknown SOCKS5 address type in reply"@,
    }
}

impl Socks5Error {
    /// The message this failure is reported with.
    pub fn message(&self) -> (s: String)
        ensures
            s@ == error_message(*self),
    {
        match self {
            Socks5Error::NotSocks5 => "proxy did not speak SOCKS5".to_owned(),
            Socks5Error::AuthRequired => "SOCKS5 proxy requires authentication, which is not supported".to_owned(),
            Socks5Error::HostnameTooLong => "destination hostname too long for SOCKS5".to_owned(),
            Socks5Error::MalformedReply => "malformed SOCKS5 reply".to_owned(),
            Socks5Error::Rejected(code) => describe_reply(*code),
            Socks5Error::UnknownAddressType => "unknown SOCKS5 address type in reply".to_owned(),
        }
    }

    /// The I/O error class this failure is reported under.
    pub fn kind(&self) -> (k: FailureKind)
        ensures
            k == match *self {
                Socks5Error::NotSocks5 => FailureKind::InvalidData,
                Socks5Error::AuthRequired => FailureKind::PermissionDenied,
                Socks5Error::HostnameTooLong => FailureKind::InvalidInput,
                Socks5Error::MalformedReply => FailureKind::InvalidData,
                Socks5Error::Rejected(_) => FailureKind::Other,
                Socks5Error::UnknownAddressType => FailureKind::InvalidData,
            },
    {
        match self {
            Socks5Error::NotSocks5 => FailureKind::InvalidData,
            Socks5Error::AuthRequired => FailureKind::PermissionDenied,
            Socks5Error::HostnameTooLong => FailureKind::InvalidInput,
            Socks5Error::MalformedReply => FailureKind::InvalidData,
            Socks5Error::Rejected(_) => FailureKind::Other,
            Socks5Error::UnknownAddressType => FailureKind::InvalidData,
        }
    }
}

/// The greeting: version 5, one method offered, "no authentication".
pub open spec fn greeting_bytes() -> Seq<u8> {
    seq![5u8, 1u8, 0u8]
}

/// The CONNECT request for `host` (sent as a domain name, address type 3,
/// so the proxy resolves it) and `port` in network byte order.
pub open spec fn connect_request_bytes(host: Seq<u8>, port: u16) -> Seq<u8> {
    seq![5u8, 1u8, 0u8, 3u8, host.len() as u8] + host + seq![(port / 256) as u8, (port % 256) as u8]
}

/// Where the handshake stands.
#[derive(Debug, Clone, Copy, PartialEq, Eq, Structural)]
pub enum Phase {
    /// Nothing sent yet.
    Start,
    /// Greeting sent; waiting for the two-byte method reply.
    AwaitMethod,
    /// CONNECT sent; waiting for the first four bytes of the reply.
    AwaitReplyHead,
    /// Waiting for the length byte of a domain-name bound address.
    AwaitDomainLength,
    /// Waiting for this many bytes of bound address and port.
    AwaitBoundAddress(usize),
    /// The tunnel is open.
    Connected,
    /// The handshake failed.
    Failed(Socks5Error),
}

/// How many bytes the step after `phase` expects to be handed.
pub open spec fn expected_input(phase: Phase) -> nat {
    match phase {
        Phase::AwaitMethod => 2,
        Phase::AwaitReplyHead => 4,
        Phase::AwaitDomainLength => 1,
        Phase::AwaitBoundAddress(n) => n as nat,
        _ => 0,
    }
}

/// What the caller does next.
#[derive(Debug)]
pub enum Socks5Step {
    /// Send `send` (if non-empty), then read exactly `read` bytes and hand them
    /// to the next step.
    Exchange { send: Vec<u8>, read: usize },
    /// The tunnel is open; bytes now flow to the destination.
    Connected,
    /// The handshake failed.
    Failed(Socks5Error),
}

/// `r` says: send `send`, then read `read` bytes.
pub open spec fn is_exchange(r: Socks5Step, send: Seq<u8>, read: nat) -> bool {
    match r {
        Socks5Step::Exchange { send: s, read: n } => s@ == send && n == read,
        _ => false,
    }
}

/// `r` reports the failure `e`.
pub open spec fn is_failure(r: Socks5Step, e: Socks5Error) -> bool {
    match r {
        Socks5Step::Failed(f) => f == e,
        _ => false,
    }
}

/// A SOCKS5 CONNECT handshake for one destination.
pub struct Socks5Handshake {
    phase: Phase,
    host: Vec<u8>,
    port: u16,
}

impl Socks5Handshake {
    /// Where the handshake stands.
    pub closed spec fn phase(&self) -> Phase {
        self.phase
    }

    /// The destination name, as bytes.
    pub closed spec fn host(&self) -> Seq<u8> {
        self.host@
    }

    /// The destination port.
    pub closed spec fn port(&self) -> u16 {
        self.port
    }

    /// A handshake that will ask the proxy to connect to `host`:`port`.
    pub fn new(host: &str, port: u16) -> (h: Socks5Handshake)
        ensures
            h.phase() == Phase::Start,
            h.host() == host.spec_bytes(),
            h.port() == port,
    {
        let bytes = host.as_bytes();
        let mut v: Vec<u8> = Vec::new();
        let mut i: usize = 0;
        while i < bytes.len()
            invariant
                i <= bytes.len(),
                v@ == bytes@.take(i as int),
            decreases bytes.len() - i,
        {
            v.push(bytes[i]);
            i = i + 1;
            assert(v@ =~= bytes@.take(i as int));
        }
        assert(bytes@.take(i as int) =~= bytes@);
        Socks5Handshake { phase: Phase::Start, host: v, port }
    }

    /// How many bytes the next step expects.
    pub fn expected(&self) -> (n: usize)
        ensures
            n == expected_input(self.phase()),
    {
        match self.phase {
            Phase::AwaitMethod => 2,
            Phase::AwaitReplyHead => 4,
            Phase::AwaitDomainLength => 1,
            Phase::AwaitBoundAddress(n) => n,
            _ => 0,
        }
    }

    fn connect_request(&self) -> (req: Vec<u8>)
        requires
            self.host().len() <= 255,
        ensures
            req@ == connect_request_bytes(self.host(), self.port()),
    {
        let mut req: Vec<u8> = Vec::new();
        req.push(5u8);
        req.push(1u8);
        req.push(0u8);
        req.push(3u8);
        req.push(self.host.len() as u8);
        let mut i: usize = 0;
        while i < self.host.len()
            invariant
                i <= self.host@.len(),
                req@ == seq![5u8, 1u8, 0u8, 3u8, self.host@.len() as u8] + self.host@.take(i as int),
            decreases self.host@.len() - i,
        {
            req.push(self.host[i]);
            i = i + 1;
            assert(req@ =~= seq![5u8, 1u8, 0u8, 3u8, self.host@.len() as u8] + self.host@.take(i as int));
        }
        req.push((self.port / 256) as u8);
        req.push((self.port % 256) as u8);
        assert(self.host@.take(i as int) =~= self.host@);
        assert(req@ =~= connect_request_bytes(self.host(), self.port()));
        req
    }

    /// Advances the handshake with `input`, the bytes read for the previous
    /// step (none for the first), and says what to do next.
    pub fn step(&mut self, input: &[u8]) -> (r: Socks5Step)
        requires
            input@.len() == expected_input(old(self).phase()),
        ensures
            final(self).host() == old(self).host(),
            final(self).port() == old(self).port(),
            match old(self).phase() {
                Phase::Start => final(self).phase() == Phase::AwaitMethod && is_exchange(r, greeting_bytes(), 2),
                Phase::AwaitMethod => if input@[0] != VERSION {
                    final(self).phase() == Phase::Failed(Socks5Error::NotSocks5) && is_failure(r, Socks5Error::NotSocks5)
                } else if input@[1] != 0 {
                    final(self).phase() == Phase::Failed(Socks5Error::AuthRequired) && is_failure(r, Socks5Error::AuthRequired)
                } else if old(self).host().len() > 255 {
                    final(self).phase() == Phase::Failed(Socks5Error::HostnameTooLong) && is_failure(r, Socks5Error::HostnameTooLong)
                } else {
                    final(self).phase() == Phase::AwaitReplyHead && is_exchange(r, connect_request_bytes(old(self).host(), old(self).port()), 4)
                },
                Phase::AwaitReplyHead => if input@[0] != VERSION {
                    final(self).phase() == Phase::Failed(Socks5Error::MalformedReply) && is_failure(r, Socks5Error::MalformedReply)
                } else if input@[1] != 0 {
                    final(self).phase() == Phase::Failed(Socks5Error::Rejected(input@[1])) && is_failure(r, Socks5Error::Rejected(input@[1]))
                } else if input@[3] == 1 {
                    final(self).phase() == Phase::AwaitBoundAddress(6) && is_exchange(r, Seq::empty(), 6)
                } else if input@[3] == 4 {
                    final(self).phase() == Phase::AwaitBoundAddress(18) && is_exchange(r, Seq::empty(), 18)
                } else if input@[3] == 3 {
                    final(self).phase() == Phase::AwaitDomainLength && is_exchange(r, Seq::empty(), 1)
                } else {
                    final(self).phase() == Phase::Failed(Socks5Error::UnknownAddressType) && is_failure(r, Socks5Error::UnknownAddressType)
                },
                Phase::AwaitDomainLength => final(self).phase() == Phase::AwaitBoundAddress(
                    (input@[0] + 2) as usize,
                ) && is_exchange(r, Seq::empty(), (input@[0] + 2) as nat),
                Phase::AwaitBoundAddress(_) => final(self).phase() == Phase::Connected && r is Connected,
                Phase::Connected => final(self).phase() == Phase::Connected && r is Connected,
                Phase::Failed(e0) => final(self).phase() == Phase::Failed(e0) && is_failure(r, e0),
            },
    {
        match self.phase {
            Phase::Start => {
                self.phase = Phase::AwaitMethod;
                let mut send: Vec<u8> = Vec::new();
                send.push(5u8);
                send.push(1u8);
                send.push(0u8);
                assert(send@ =~= greeting_bytes());
                Socks5Step::Exchange { send, read: 2 }
            },
            Phase::AwaitMethod => {
                if input[0] != VERSION {
                    self.phase = Phase::Failed(Socks5Error::NotSocks5);
                    Socks5Step::Failed(Socks5Error::NotSocks5)
                } else if input[1] != 0 {
                    self.phase = Phase::Failed(Socks5Error::AuthRequired);
                    Socks5Step::Failed(Socks5Error::AuthRequired)
                } else if self.host.len() > 255 {
                    self.phase = Phase::Failed(Socks5Error::HostnameTooLong);
                    Socks5Step::Failed(Socks5Error::HostnameTooLong)
                } else {
                    let send = self.connect_request();
                    self.phase = Phase::AwaitReplyHead;
                    Socks5Step::Exchange { send, read: 4 }
                }
            },
            Phase::AwaitReplyHead => {
                if input[0] != VERSION {
                    self.phase = Phase::Failed(Socks5Error::MalformedReply);
                    Socks5Step::Failed(Socks5Error::MalformedReply)
                } else if input[1] != 0 {
                    let e = Socks5Error::Rejected(input[1]);
                    self.phase = Phase::Failed(e);
                    Socks5Step::Failed(e)
                } else if input[3] == 1 {
                    self.phase = Phase::AwaitBoundAddress(6);
                    Socks5Step::Exchange { send: Vec::new(), read: 6 }
                } else if input[3] == 4 {
                    self.phase = Phase::AwaitBoundAddress(18);
                    Socks5Step::Exchange { send: Vec::new(), read: 18 }
                } else if input[3] == 3 {
                    self.phase = Phase::AwaitDomainLength;
                    Socks5Step::Exchange { send: Vec::new(), read: 1 }
                } else {
                    self.phase = Phase::Failed(Socks5Error::UnknownAddressType);
                    Socks5Step::Failed(Socks5Error::UnknownAddressType)
                }
            },
            Phase::AwaitDomainLength => {
                let n: usize = input[0] as usize + 2;
                self.phase = Phase::AwaitBoundAddress(n);
                Socks5Step::Exchange { send: Vec::new(), read: n }
            },
            Phase::AwaitBoundAddress(_) => {
                self.phase = Phase::Connected;
                Socks5Step::Connected
            },
            Phase::Connected => Socks5Step::Connected,
            Phase::Failed(e) => Socks5Step::Failed(e),
        }
    }
}

/// A proxy that reads the CONNECT request back finds exactly the requested
/// destination: address type 3, the name's length, the name, and the port
/// in network byte order.
pub proof fn law_request_carries_destination(host: Seq<u8>, port: u16)
    requires
        host.len() <= 255,
    ensures
        ({
            let r = connect_request_bytes(host, port);
            &&& r.len() == host.len() + 7
            &&& r.subrange(0, 4) == seq![5u8, 1u8, 0u8, 3u8]
            &&& r[4] as nat == host.len()
            &&& r.subrange(5, 5 + host.len() as int) == host
            &&& r[5 + host.len() as int] as nat * 256 + r[6 + host.len() as int] as nat == port as nat
        }),
{
    let r = connect_request_bytes(host, port);
    assert(r.subrange(0, 4) =~= seq![5u8, 1u8, 0u8, 3u8]);
    assert(r.subrange(5, 5 + host.len() as int) =~= host);
}

} // verus!
