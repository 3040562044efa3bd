//! One generation session and the shared admission pool.
//!
//! A session ties one strategy run to one consumer: it is admitted against
//! the pool, delivers a first message that carries the configured prefix and
//! is exempt from limits, then forwards chunks while the optional time and
//! size ceilings hold. The surrounding binary drives the channels and the
//! clock and reports every outcome back to these functions, so the
//! bookkeeping here decides exactly when a stream ends.

use vstd::prelude::*;
use crate::config::GeneratorConfig;

verus! {

/// The sum of a sequence of delivered unit sizes.
pub open spec fn seq_sum(s: Seq<nat>) -> nat
    decreases s.len(),
{
    if s.len() == 0 {
        0
    } else {
        seq_sum(s.drop_last()) + s.last()
    }
}

/// `a`, cut off at the largest byte counter the machine can hold.
pub open spec fn clamped(a: nat) -> nat {
    if a <= usize::MAX as nat {
        a
    } else {
        usize::MAX as nat
    }
}

proof fn lemma_seq_sum_first(s: Seq<nat>)
    requires
        s.len() >= 1,
    ensures
        seq_sum(s) >= s[0],
    decreases s.len(),
{
    if s.len() == 1 {
        assert(s.drop_last().len() == 0);
    } else {
        lemma_seq_sum_first(s.drop_last());
        assert(s.drop_last()[0] == s[0]);
    }
}

/// The pool of permits that bounds how many sessions may generate at once.
/// One permit is held for a session's full lifetime.
pub struct PermitPool {
    /// Permits not handed out right now.
    pub available: usize,
    /// The size the pool was built with.
    pub limit: usize,
}

impl PermitPool {
    /// The pool never hands out more permits than it was built with.
    pub open spec fn wf(&self) -> bool {
        self.available <= self.limit
    }

    /// How many permits are held by live sessions.
    pub open spec fn outstanding(&self) -> int {
        self.limit - self.available
    }

    /// Whether one more session could be admitted right now.
    pub open spec fn can_admit(&self) -> bool {
        self.available > 0
    }

    /// A fresh pool with every permit available.
    pub fn new(limit: usize) -> (p: Self)
        ensures
            p.wf(),
            p.limit == limit,
            p.available == limit,
            p.outstanding() == 0,
    {
        PermitPool { available: limit, limit }
    }

    /// Takes one permit if one is free. A caller that is refused must wait
    /// for a release; nothing else makes a permit appear.
    pub fn try_acquire(&mut self) -> (r: bool)
        requires
            old(self).wf(),
        ensures
            final(self).wf(),
            final(self).limit == old(self).limit,
            r == old(self).can_admit(),
            r ==> final(self).available == old(self).available - 1,
            !r ==> *final(self) == *old(self),
    {
        if self.available > 0 {
            self.available = self.available - 1;
            true
        } else {
            false
        }
    }

    /// Gives a session's permit back when the session ends, on every exit
    /// path.
    pub fn release(&mut self)
        requires
            old(self).wf(),
            old(self).outstanding() > 0,
        ensures
            final(self).wf(),
            final(self).limit == old(self).limit,
            final(self).available == old(self).available + 1,
            final(self).can_admit(),
    {
        self.available = self.available + 1;
    }
}

/// Admission-control law: with every permit outstanding no further session
/// can be admitted, and as soon as fewer than `limit` permits are
/// outstanding (one holder was torn down and released), admission succeeds
/// again.
pub proof fn lemma_admission_control(p: PermitPool)
    requires
        p.wf(),
    ensures
        p.outstanding() == p.limit <==> !p.can_admit(),
        p.outstanding() < p.limit ==> p.can_admit(),
{
}

/// Where a session stands: admitted but nothing delivered yet, streaming, or
/// one of the terminal outcomes.
#[derive(Clone, Copy, Debug, PartialEq, Eq, Structural)]
pub enum SessionPhase {
    /// A permit is held; the first chunk has not been delivered.
    Admitted,
    /// The first message was delivered; limits are checked between chunks.
    Streaming,
    /// The time or size ceiling was breached: a normal end, not an error.
    LimitReached,
    /// The consumer went away mid-stream.
    Disconnected,
    /// The strategy's channel closed before or during the stream.
    Exhausted,
}

/// The per-session bookkeeping: phase, byte counter and the configured
/// ceilings. The ghost sequence records the size of every unit delivered to
/// the consumer, the first message included.
pub struct Session {
    /// Where the session stands.
    pub phase: SessionPhase,
    /// Bytes delivered so far, counted after each successful delivery.
    pub bytes_written: usize,
    /// Seconds a session may stream; `0` means no limit.
    pub time_limit: u64,
    /// Bytes a session may deliver; `0` means no limit.
    pub size_limit: usize,
    /// The sizes of the units delivered so far.
    pub delivered: Ghost<Seq<nat>>,
}

impl Session {
    /// The byte counter matches the delivered units, and every unit after
    /// the first was forwarded only while the size ceiling still held.
    pub open spec fn wf(&self) -> bool {
        &&& self.bytes_written == clamped(seq_sum(self.delivered@))
        &&& (self.phase == SessionPhase::Admitted ==> self.delivered@.len() == 0)
        &&& (self.phase == SessionPhase::Streaming ==> self.delivered@.len() >= 1)
        &&& (self.size_limit > 0 ==> forall|i: int|
            1 <= i < self.delivered@.len() ==> seq_sum(
                #[trigger] self.delivered@.take(i),
            ) < self.size_limit)
    }

    /// Whether the wall clock still allows streaming. A clock that went
    /// backwards reports `None` and counts as no time passed.
    pub open spec fn time_ok(&self, elapsed_ms: Option<u64>) -> bool {
        self.time_limit == 0 || match elapsed_ms {
            Some(e) => e as int <= self.time_limit as int * 1000,
            None => true,
        }
    }

    /// Whether the byte counter still allows streaming.
    pub open spec fn size_ok(&self) -> bool {
        self.size_limit == 0 || self.bytes_written < self.size_limit
    }

    /// A fresh session for one admitted stream, before any delivery.
    pub fn new(config: &GeneratorConfig) -> (s: Self)
        ensures
            s.wf(),
            s.phase == SessionPhase::Admitted,
            s.bytes_written == 0,
            s.time_limit == config.time_limit,
            s.size_limit == config.size_limit,
            s.delivered@ =~= Seq::<nat>::empty(),
    {
        Session {
            phase: SessionPhase::Admitted,
            bytes_written: 0,
            time_limit: config.time_limit,
            size_limit: config.size_limit,
            delivered: Ghost(Seq::empty()),
        }
    }

    /// Records that the first message reached the consumer. The first
    /// message is exempt from limit checks, so a client always receives at
    /// least one unit of output.
    pub fn first_sent(&mut self, n: usize)
        requires
            old(self).phase == SessionPhase::Admitted,
            old(self).wf(),
        ensures
            final(self).wf(),
            final(self).phase == SessionPhase::Streaming,
            final(self).bytes_written == n,
            final(self).time_limit == old(self).time_limit,
            final(self).size_limit == old(self).size_limit,
            final(self).delivered@ == seq![n as nat],
    {
        self.phase = SessionPhase::Streaming;
        self.bytes_written = n;
        self.delivered = Ghost(Seq::empty().push(n as nat));
        proof {
            assert(self.delivered@ =~= seq![n as nat]);
            assert(self.delivered@.drop_last() =~= Seq::<nat>::empty());
            assert(seq_sum(Seq::<nat>::empty()) == 0);
            assert(seq_sum(self.delivered@) == n as nat);
        }
    }

    /// Checks both ceilings between chunks. Returns whether the session may
    /// pull and forward another chunk; on a breach the session ends cleanly
    /// in `LimitReached`. Termination on time happens at or after the
    /// configured limit, never before it.
    pub fn check_limits(&mut self, elapsed_ms: Option<u64>) -> (cont: bool)
        requires
            old(self).phase == SessionPhase::Streaming,
            old(self).wf(),
        ensures
            final(self).wf(),
            cont == (old(self).time_ok(elapsed_ms) && old(self).size_ok()),
            cont ==> *final(self) == *old(self),
            !cont ==> final(self).phase == SessionPhase::LimitReached,
            final(self).bytes_written == old(self).bytes_written,
            final(self).delivered == old(self).delivered,
            final(self).time_limit == old(self).time_limit,
            final(self).size_limit == old(self).size_limit,
    {
        let time_breach = match elapsed_ms {
            Some(e) => self.time_limit != 0 && (e as u128) > (self.time_limit as u128) * 1000,
            None => false,
        };
        let size_breach = self.size_limit != 0 && self.bytes_written >= self.size_limit;
        if time_breach || size_breach {
            self.phase = SessionPhase::LimitReached;
            false
        } else {
            true
        }
    }

    /// Records one more chunk forwarded to the consumer. May only follow a
    /// passed size check; the counter saturates at the machine limit.
    pub fn chunk_sent(&mut self, n: usize)
        requires
            old(self).phase == SessionPhase::Streaming,
            old(self).wf(),
            old(self).size_ok(),
        ensures
            final(self).wf(),
            final(self).phase == SessionPhase::Streaming,
            final(self).time_limit == old(self).time_limit,
            final(self).size_limit == old(self).size_limit,
            final(self).delivered@ == old(self).delivered@.push(n as nat),
            final(self).bytes_written == clamped(old(self).bytes_written as nat + n as nat),
    {
        proof {
            let d = self.delivered@;
            let dp = d.push(n as nat);
            assert(dp.drop_last() =~= d);
            assert(seq_sum(dp) == seq_sum(d) + n);
        }
        if usize::MAX - n < self.bytes_written {
            self.bytes_written = usize::MAX;
        } else {
            self.bytes_written = self.bytes_written + n;
        }
        let old_delivered = Ghost(self.delivered@);
        self.delivered = Ghost(self.delivered@.push(n as nat));
        proof {
            let d = old_delivered@;
            let dp = self.delivered@;
            let lim = self.size_limit;
            if lim > 0 {
                assert forall|i: int| 1 <= i < dp.len() implies seq_sum(#[trigger] dp.take(i))
                    < lim by {
                    if i < d.len() {
                        assert(dp.take(i) =~= d.take(i));
                    } else {
                        assert(dp.take(i) =~= d);
                        // The size check passed, so the counter had not
                        // saturated and equals the exact sum.
                        assert(clamped(seq_sum(d)) < lim);
                    }
                }
            }
        }
    }

    /// Records that the consumer went away: the session ends silently and
    /// its permit must be released.
    pub fn consumer_gone(&mut self)
        requires
            old(self).wf(),
            old(self).phase == SessionPhase::Admitted || old(self).phase
                == SessionPhase::Streaming,
        ensures
            final(self).wf(),
            final(self).phase == SessionPhase::Disconnected,
            final(self).bytes_written == old(self).bytes_written,
            final(self).delivered == old(self).delivered,
            final(self).time_limit == old(self).time_limit,
            final(self).size_limit == old(self).size_limit,
    {
        self.phase = SessionPhase::Disconnected;
    }

    /// Records that the strategy's channel closed: with no first chunk the
    /// session aborts without ever sending data to the consumer.
    pub fn strategy_exhausted(&mut self)
        requires
            old(self).wf(),
            old(self).phase == SessionPhase::Admitted || old(self).phase
                == SessionPhase::Streaming,
        ensures
            final(self).wf(),
            final(self).phase == SessionPhase::Exhausted,
            final(self).bytes_written == old(self).bytes_written,
            final(self).delivered == old(self).delivered,
            final(self).time_limit == old(self).time_limit,
            final(self).size_limit == old(self).size_limit,
    {
        self.phase = SessionPhase::Exhausted;
    }
}

/// Size-limit law: for a session with `size_limit = S > 0` whose delivered
/// units each hold at most `cap` bytes, the total delivered is at least the
/// first unit's size and at most `S + cap`: the check between chunks stops
/// the stream before the total can pass the ceiling by more than one unit.
pub proof fn lemma_size_limit_bound(s: Session, cap: nat)
    requires
        s.wf(),
        s.size_limit > 0,
        s.delivered@.len() >= 1,
        forall|i: int| 0 <= i < s.delivered@.len() ==> s.delivered@[i] <= cap,
    ensures
        seq_sum(s.delivered@) >= s.delivered@[0],
        seq_sum(s.delivered@) <= s.size_limit + cap,
{
    lemma_seq_sum_first(s.delivered@);
    let d = s.delivered@;
    if d.len() == 1 {
        assert(d.drop_last().len() == 0);
        assert(seq_sum(d.drop_last()) == 0);
        assert(seq_sum(d) == d[0]);
        assert(d[0] <= cap);
    } else {
        let i: int = d.len() as int - 1;
        assert(1 <= i < s.delivered@.len());
        assert(seq_sum(s.delivered@.take(i)) < s.size_limit);
        assert(s.delivered@.take(i) =~= d.drop_last());
        assert(seq_sum(d) == seq_sum(d.drop_last()) + d.last());
        assert(d[i] <= cap);
    }
}

/// Time-limit law: with `time_limit = T > 0`, the check between chunks lets
/// the stream continue exactly while the elapsed time is within `T` seconds,
/// so termination comes at or after `T`, and a clock fault counts as no time
/// passed.
pub proof fn lemma_time_limit_termination(s: Session, elapsed_ms: u64)
    requires
        s.time_limit > 0,
    ensures
        s.time_ok(Some(elapsed_ms)) <==> elapsed_ms <= s.time_limit as int * 1000,
        s.time_ok(None),
{
}

} // verus!
