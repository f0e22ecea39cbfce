//! Small decisions of the network sessions: address formatting, which I/O
//! errors end a relay quietly, connection retries, and idle timeouts.

use vstd::prelude::*;

use crate::text::{chars_of, decimal, push_char, push_decimal};

verus! {

/// Whether `host` needs brackets before a port is appended: it holds a
/// colon (a bare IPv6 literal) and does not already start with `[`.
pub open spec fn needs_brackets(host: Seq<char>) -> bool {
    host.contains(':') && !(host.len() > 0 && host[0] == '[')
}

/// `host:port`, with a bare IPv6 literal written as `[host]:port`.
pub open spec fn address_spec(host: Seq<char>, port: u16) -> Seq<char> {
    if needs_brackets(host) {
        "["@ + host + "]:"@ + decimal(port as nat)
    } else {
        host + ":"@ + decimal(port as nat)
    }
}

/// Every host that contains a colon and does not already start with `[` is
/// written in brackets before `:port`; any other host is written as it is.
pub proof fn law_ipv6_literals_are_bracketed(host: Seq<char>, port: u16)
    ensures
        host.contains(':') && !(host.len() > 0 && host[0] == '[') ==> address_spec(host, port) == seq!['['] + host
            + seq![']', ':'] + decimal(port as nat),
        !(host.contains(':') && !(host.len() > 0 && host[0] == '[')) ==> address_spec(host, port) == host + seq![
            ':',
        ] + decimal(port as nat),
{
    reveal_strlit("[");
    reveal_strlit("]:");
    reveal_strlit(":");
    assert("["@ =~= seq!['[']);
    assert("]:"@ =~= seq![']', ':']);
    assert(":"@ =~= seq![':']);
}

/// Builds a `host:port` string that also works for bare IPv6 literals.
pub fn format_addr(host: &str, port: u16) -> (r: String)
    ensures
        r@ == address_spec(host@, port),
{
    let cs = chars_of(host);
    let mut has_colon = false;
    let mut i: usize = 0;
    while i < cs.len()
        invariant
            i <= cs@.len(),
            has_colon == cs@.take(i as int).contains(':'),
        decreases cs@.len() - i,
    {
        if cs[i] == ':' {
            has_colon = true;
        }
        proof {
            let t = cs@.take(i + 1);
            assert(t[i as int] == cs@[i as int]);
            if cs@.take(i as int).contains(':') {
                let k = choose|k: int| 0 <= k < i && cs@.take(i as int)[k] == ':';
                assert(t[k] == ':');
            }
            if t.contains(':') {
                let k = choose|k: int| 0 <= k < t.len() && t[k] == ':';
                if k < i {
                    assert(cs@.take(i as int)[k] == ':');
                }
            }
        }
        i = i + 1;
    }
    assert(cs@.take(i as int) =~= cs@);
    let starts_bracket = cs.len() > 0 && cs[0] == '[';
    let mut r = String::new();
    if has_colon && !starts_bracket {
        push_char(&mut r, '[');
        r.append(host);
        r.append("]:");
    } else {
        r.append(host);
        r.append(":");
    }
    push_decimal(&mut r, port as u128);
    proof {
        reveal_strlit("[");
        assert(seq!['['] =~= "["@);
    }
    r
}

/// The class of an I/O error, as far as the relays care.
#[derive(Debug, Clone, Copy, PartialEq, Eq, Structural)]
pub enum IoErrorClass {
    /// A read gave up because its timeout passed (`WouldBlock`).
    WouldBlock,
    /// A read gave up because its timeout passed (`TimedOut`).
    TimedOut,
    /// The call was interrupted and may be retried.
    Interrupted,
    /// Anything else.
    Other,
}

/// Whether an error of class `c` is a normal way for a relay to end (an
/// idle timeout) rather than a failure.
pub open spec fn is_quiet_end(c: IoErrorClass) -> bool {
    c == IoErrorClass::WouldBlock || c == IoErrorClass::TimedOut
}

/// Whether an error of class `c` is a normal way for a relay to end.
pub fn quiet_end(c: IoErrorClass) -> (b: bool)
    ensures
        b == is_quiet_end(c),
{
    match c {
        IoErrorClass::WouldBlock | IoErrorClass::TimedOut => true,
        _ => false,
    }
}

/// Turns the outcome of a relay leg into the session's outcome: an idle
/// timeout is a normal end, any other error is reported.
pub fn only_real_errors<T, E>(result: Result<T, (IoErrorClass, E)>) -> (r: Result<(), E>)
    ensures
        match result {
            Ok(_) => r is Ok,
            Err((c, e)) => if is_quiet_end(c) {
                r is Ok
            } else {
                r == Err::<(), E>(e)
            },
        },
{
    match result {
        Ok(_) => Ok(()),
        Err((c, e)) => {
            if quiet_end(c) {
                Ok(())
            } else {
                Err(e)
            }
        },
    }
}

/// What a byte pump does after one read.
#[derive(Debug, Clone, Copy, PartialEq, Eq, Structural)]
pub enum PumpAction {
    /// Pass on this many bytes, then read again.
    Forward(usize),
    /// The read was interrupted: read again.
    Retry,
    /// End of input: finish.
    Finish,
    /// The read failed: stop with its error.
    Fail,
}

/// What a byte pump does after a read that gave `n` bytes or failed with an
/// error of class `c`: zero bytes is the end of input, an interrupted read is
/// retried, any other failure stops the pump.
pub fn read_action(result: Result<usize, IoErrorClass>) -> (a: PumpAction)
    ensures
        a == match result {
            Ok(n) => if n == 0 {
                PumpAction::Finish
            } else {
                PumpAction::Forward(n)
            },
            Err(c) => if c == IoErrorClass::Interrupted {
                PumpAction::Retry
            } else {
                PumpAction::Fail
            },
        },
{
    match result {
        Ok(0) => PumpAction::Finish,
        Ok(n) => PumpAction::Forward(n),
        Err(IoErrorClass::Interrupted) => PumpAction::Retry,
        Err(_) => PumpAction::Fail,
    }
}

/// Whether a read that has waited `elapsed` nanoseconds without data has
/// run past the idle timeout (none: it never does).
pub fn read_timed_out(elapsed: u128, timeout: Option<u128>) -> (b: bool)
    ensures
        b == (timeout is Some && elapsed >= timeout->0),
{
    match timeout {
        Some(t) => elapsed >= t,
        None => false,
    }
}

/// Client-side connection retries: after a failed attempt, another is made
/// while fewer than `limit` retries have been used.
pub struct ConnectRetry {
    limit: u32,
    used: u32,
}

impl ConnectRetry {
    #[verifier::type_invariant]
    spec fn within_limit(&self) -> bool {
        self.used <= self.limit
    }

    /// How many retries are allowed.
    pub closed spec fn limit(&self) -> u32 {
        self.limit
    }

    /// How many retries have been used.
    pub closed spec fn used(&self) -> u32 {
        self.used
    }

    /// No retries used yet, at most `limit` allowed.
    pub fn new(limit: u32) -> (r: ConnectRetry)
        ensures
            r.limit() == limit,
            r.used() == 0,
    {
        ConnectRetry { limit, used: 0 }
    }

    /// Records a failed attempt; says whether to try again. At most `limit`
    /// retries are ever granted, so at most `limit + 1` attempts are made.
    pub fn on_failure(&mut self) -> (again: bool)
        ensures
            final(self).limit() == old(self).limit(),
            again == (old(self).used() < old(self).limit()),
            again ==> final(self).used() == old(self).used() + 1,
            !again ==> final(self).used() == old(self).used(),
            final(self).used() <= final(self).limit(),
    {
        proof {
            use_type_invariant(&*self);
        }
        if self.used < self.limit {
            self.used = self.used + 1;
            true
        } else {
            false
        }
    }

    /// The number of the retry last granted (zero before any).
    pub fn attempt(&self) -> (n: u32)
        ensures
            n == self.used(),
            n <= self.limit(),
    {
        proof {
            use_type_invariant(self);
        }
        self.used
    }
}

} // verus!
