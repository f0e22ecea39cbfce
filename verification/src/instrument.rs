//! Traffic direction, transfer counters, and throughput pacing.

use vstd::prelude::*;

use std::time::Instant;

verus! {

#[verifier::external_type_specification]
#[verifier::external_body]
pub struct ExInstant(Instant);

/// `Instant::now()`. Trusted; nothing is claimed of the reading.
#[verifier::external_body]
fn now() -> Instant {
    Instant::now()
}

/// Nanoseconds since `start` (`Instant::elapsed` as nanoseconds). Trusted;
/// nothing is claimed of the reading, which depends on the clock.
#[verifier::external_body]
fn nanos_since(start: &Instant) -> u128 {
    start.elapsed().as_nanos()
}

/// Which way data flows.
#[derive(Debug, Clone, Copy, PartialEq, Eq, Structural)]
pub enum Direction {
    /// From us to the peer (stdin to socket).
    Send,
    /// From the peer to us (socket to stdout).
    Recv,
}

/// The marker of a direction in the hex dump.
pub open spec fn arrow_text(dir: Direction) -> Seq<char> {
    match dir {
        Direction::Send => ">>"@,
        Direction::Recv => "<<"@,
    }
}

/// The name of a direction in the event log.
pub open spec fn label_text(dir: Direction) -> Seq<char> {
    match dir {
        Direction::Send => "send"@,
        Direction::Recv => "recv"@,
    }
}

impl Direction {
    /// `>>` for sent data, `<<` for received data.
    pub fn arrow(self) -> (s: &'static str)
        ensures
            s@ == arrow_text(self),
    {
        match self {
            Direction::Send => ">>",
            Direction::Recv => "<<",
        }
    }

    /// `send` or `recv`.
    pub fn label(self) -> (s: &'static str)
        ensures
            s@ == label_text(self),
    {
        match self {
            Direction::Send => "send",
            Direction::Recv => "recv",
        }
    }
}

/// One more than the largest `u64`: counters wrap around at this value.
pub open spec fn counter_modulus() -> int {
    0x1_0000_0000_0000_0000
}

/// Transfer counters for the summary printed when a connection ends.
pub struct Stats {
    bytes_sent: u64,
    bytes_recv: u64,
    started: Instant,
}

impl Stats {
    /// Bytes counted as sent.
    pub closed spec fn sent(&self) -> u64 {
        self.bytes_sent
    }

    /// Bytes counted as received.
    pub closed spec fn received(&self) -> u64 {
        self.bytes_recv
    }

    /// Counters at zero, with the clock started now.
    pub fn new() -> (s: Stats)
        ensures
            s.sent() == 0,
            s.received() == 0,
    {
        Stats { bytes_sent: 0, bytes_recv: 0, started: now() }
    }

    /// Counts `n` more bytes in direction `dir` (wrapping like an atomic add).
    pub fn add(&mut self, dir: Direction, n: u64)
        ensures
            dir == Direction::Send ==> final(self).sent() == (old(self).sent() + n) % counter_modulus()
                && final(self).received() == old(self).received(),
            dir == Direction::Recv ==> final(self).received() == (old(self).received() + n)
                % counter_modulus() && final(self).sent() == old(self).sent(),
            final(self).started_at() == old(self).started_at(),
    {
        match dir {
            Direction::Send => {
                self.bytes_sent = self.bytes_sent.wrapping_add(n);
            },
            Direction::Recv => {
                self.bytes_recv = self.bytes_recv.wrapping_add(n);
            },
        }
    }

    /// Bytes counted as sent.
    pub fn bytes_sent(&self) -> (n: u64)
        ensures
            n == self.sent(),
    {
        self.bytes_sent
    }

    /// Bytes counted as received.
    pub fn bytes_recv(&self) -> (n: u64)
        ensures
            n == self.received(),
    {
        self.bytes_recv
    }

    /// When counting started: the clock reading taken by `new`, which
    /// counting never changes.
    pub fn started(&self) -> (t: Instant)
        ensures
            t == self.started_at(),
    {
        self.started
    }

    /// The clock reading taken when counting started.
    pub closed spec fn started_at(&self) -> Instant {
        self.started
    }
}

/// The bytes that the adds `ops` count in direction `dir`.
pub open spec fn counted(ops: Seq<(Direction, u64)>, dir: Direction) -> int
    decreases ops.len(),
{
    if ops.len() == 0 {
        0
    } else {
        counted(ops.drop_last(), dir) + if ops.last().0 == dir {
            ops.last().1 as int
        } else {
            0
        }
    }
}

/// The (sent, received) counters after `Stats::add` is called with each of
/// `ops` in turn, starting from `sent` and `recv`.
pub open spec fn after_adds(sent: int, recv: int, ops: Seq<(Direction, u64)>) -> (int, int)
    decreases ops.len(),
{
    if ops.len() == 0 {
        (sent, recv)
    } else {
        let before = after_adds(sent, recv, ops.drop_last());
        if ops.last().0 == Direction::Send {
            ((before.0 + ops.last().1) % counter_modulus(), before.1)
        } else {
            (before.0, (before.1 + ops.last().1) % counter_modulus())
        }
    }
}

proof fn lemma_counted_remove(ops: Seq<(Direction, u64)>, k: int, dir: Direction)
    requires
        0 <= k < ops.len(),
    ensures
        counted(ops, dir) == counted(ops.remove(k), dir) + if ops[k].0 == dir {
            ops[k].1 as int
        } else {
            0
        },
    decreases ops.len(),
{
    if k < ops.len() - 1 {
        let r = ops.remove(k);
        assert(r.drop_last() =~= ops.drop_last().remove(k));
        assert(r.last() == ops.last());
        lemma_counted_remove(ops.drop_last(), k, dir);
    } else {
        assert(ops.remove(k) =~= ops.drop_last());
    }
}

proof fn lemma_counted_permutation(a: Seq<(Direction, u64)>, b: Seq<(Direction, u64)>, dir: Direction)
    requires
        a.to_multiset() == b.to_multiset(),
    ensures
        counted(a, dir) == counted(b, dir),
    decreases a.len(),
{
    broadcast use vstd::seq_lib::group_to_multiset_ensures;

    if a.len() == 0 {
        assert(a.to_multiset().len() == 0);
        assert(b.to_multiset().len() == 0);
        assert(b.len() == 0);
    } else {
        let x = a.last();
        assert(a.drop_last().push(x) =~= a);
        assert(a.to_multiset().count(x) > 0);
        assert(b.contains(x));
        let k = choose|k: int| 0 <= k < b.len() && b[k] == x;
        lemma_counted_remove(b, k, dir);
        assert(a.drop_last().to_multiset() =~= a.to_multiset().remove(x));
        assert(b.remove(k).to_multiset() =~= b.to_multiset().remove(x));
        lemma_counted_permutation(a.drop_last(), b.remove(k), dir);
    }
}

/// Counting is bookkeeping of totals: after any sequence of adds, each
/// counter is its start plus the bytes added in its direction, modulo
/// 2^64, so the counters do not depend on the order of the adds.
pub proof fn law_counters_are_totals(
    sent: int,
    recv: int,
    ops: Seq<(Direction, u64)>,
    reordered: Seq<(Direction, u64)>,
)
    requires
        0 <= sent < counter_modulus(),
        0 <= recv < counter_modulus(),
        reordered.to_multiset() == ops.to_multiset(),
    ensures
        after_adds(sent, recv, ops) == (
            (sent + counted(ops, Direction::Send)) % counter_modulus(),
            (recv + counted(ops, Direction::Recv)) % counter_modulus(),
        ),
        after_adds(sent, recv, reordered) == after_adds(sent, recv, ops),
{
    lemma_after_adds_totals(sent, recv, ops);
    lemma_after_adds_totals(sent, recv, reordered);
    lemma_counted_permutation(reordered, ops, Direction::Send);
    lemma_counted_permutation(reordered, ops, Direction::Recv);
}

proof fn lemma_after_adds_totals(sent: int, recv: int, ops: Seq<(Direction, u64)>)
    requires
        0 <= sent < counter_modulus(),
        0 <= recv < counter_modulus(),
    ensures
        after_adds(sent, recv, ops) == (
            (sent + counted(ops, Direction::Send)) % counter_modulus(),
            (recv + counted(ops, Direction::Recv)) % counter_modulus(),
        ),
    decreases ops.len(),
{
    if ops.len() == 0 {
        vstd::arithmetic::div_mod::lemma_small_mod(sent as nat, counter_modulus() as nat);
        vstd::arithmetic::div_mod::lemma_small_mod(recv as nat, counter_modulus() as nat);
    } else {
        lemma_after_adds_totals(sent, recv, ops.drop_last());
        let n = ops.last().1 as int;
        let cs = sent + counted(ops.drop_last(), Direction::Send);
        let cr = recv + counted(ops.drop_last(), Direction::Recv);
        vstd::arithmetic::div_mod::lemma_add_mod_noop_right(n, cs, counter_modulus());
        vstd::arithmetic::div_mod::lemma_add_mod_noop_right(n, cr, counter_modulus());
        assert((cs % counter_modulus()) + n == n + (cs % counter_modulus()));
        assert(cs + n == n + cs);
        assert((cr % counter_modulus()) + n == n + (cr % counter_modulus()));
        assert(cr + n == n + cr);
    }
}

/// Nanoseconds that moving `total` bytes should take at `limit` bytes per
/// second: `total / limit` seconds, rounded to the nearest nanosecond (a
/// tie rounds up).
pub open spec fn schedule_nanos(total: int, limit: int) -> int {
    (total * 2_000_000_000 + limit) / (2 * limit)
}

/// How long to wait when `total` bytes have moved after `elapsed`
/// nanoseconds at a cap of `limit` bytes per second: the time still owed to
/// the schedule, or nothing when running behind it.
pub open spec fn pace_spec(total: int, limit: int, elapsed: int) -> int {
    if schedule_nanos(total, limit) > elapsed {
        schedule_nanos(total, limit) - elapsed
    } else {
        0
    }
}

/// Nanoseconds to wait so that `total` bytes moved after `elapsed`
/// nanoseconds do not exceed `limit` bytes per second.
pub fn pace(total: u64, limit: u64, elapsed: u128) -> (d: u128)
    requires
        limit > 0,
    ensures
        d == pace_spec(total as int, limit as int, elapsed as int),
{
    let expected: u128 = ((total as u128) * 2_000_000_000u128 + (limit as u128)) / (2 * (limit as u128));
    if expected > elapsed {
        expected - elapsed
    } else {
        0
    }
}

/// Sleeping the time `pace` asks for always brings the clock up to the
/// schedule (never short of it), and never asks for more than the whole
/// schedule; when already behind the schedule it asks for nothing.
pub proof fn law_pace_meets_schedule(total: int, limit: int, elapsed: int)
    requires
        limit > 0,
        total >= 0,
        elapsed >= 0,
    ensures
        elapsed + pace_spec(total, limit, elapsed) >= schedule_nanos(total, limit),
        pace_spec(total, limit, elapsed) <= schedule_nanos(total, limit),
        elapsed >= schedule_nanos(total, limit) ==> pace_spec(total, limit, elapsed) == 0,
{
}

/// What `RateLimiter::throttle` decided.
#[derive(Debug, Clone, Copy, PartialEq, Eq, Structural)]
pub struct Pacing {
    /// Nanoseconds to sleep to stay on schedule.
    pub wait_nanos: u128,
    /// The clock reading (nanoseconds since the limiter started) the wait was
    /// computed from; none when there is no cap and the clock was not read.
    pub clock_nanos: Option<u128>,
}

/// Caps throughput by pacing: the bytes moved since creation are held to
/// the schedule that the limit sets.
pub struct RateLimiter {
    limit: u64,
    start: Instant,
    sent: u64,
}

impl RateLimiter {
    /// The cap, in bytes per second (zero: no cap).
    pub closed spec fn limit(&self) -> u64 {
        self.limit
    }

    /// Bytes moved since creation.
    pub closed spec fn total(&self) -> u64 {
        self.sent
    }

    /// A limiter for `bytes_per_sec`, with its clock started now.
    pub fn new(bytes_per_sec: u64) -> (r: RateLimiter)
        ensures
            r.limit() == bytes_per_sec,
            r.total() == 0,
    {
        RateLimiter { limit: bytes_per_sec, start: now(), sent: 0 }
    }

    /// When the limiter was made: the clock reading that `throttle` measures
    /// from, which it never changes.
    pub fn started(&self) -> (t: Instant)
        ensures
            t == self.start_time(),
    {
        self.start
    }

    /// Bytes moved since creation.
    pub fn bytes_moved(&self) -> (n: u64)
        ensures
            n == self.total(),
    {
        self.sent
    }

    /// Counts `n` more bytes and says how many nanoseconds the caller should
    /// sleep to stay on schedule: `pace` of the new total at the clock
    /// reading taken here. With no cap nothing is counted, the clock is not
    /// read, and there is nothing to wait.
    pub fn throttle(&mut self, n: u64) -> (p: Pacing)
        requires
            old(self).limit() == 0 || old(self).total() + n <= u64::MAX,
        ensures
            final(self).limit() == old(self).limit(),
            final(self).start_time() == old(self).start_time(),
            old(self).limit() == 0 ==> p.wait_nanos == 0 && p.clock_nanos is None && final(self).total()
                == old(self).total(),
            old(self).limit() != 0 ==> final(self).total() == old(self).total() + n && p.clock_nanos is Some
                && p.wait_nanos == pace_spec(
                final(self).total() as int,
                old(self).limit() as int,
                p.clock_nanos->0 as int,
            ),
    {
        if self.limit == 0 {
            return Pacing { wait_nanos: 0, clock_nanos: None };
        }
        self.sent = self.sent + n;
        let elapsed = nanos_since(&self.start);
        Pacing { wait_nanos: pace(self.sent, self.limit, elapsed), clock_nanos: Some(elapsed) }
    }

    /// The clock reading taken when the limiter was made.
    pub closed spec fn start_time(&self) -> Instant {
        self.start
    }
}

} // verus!
