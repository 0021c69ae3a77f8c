//! The per-target circuit breaker, counted over a sliding time window.
use vstd::prelude::*;
use crate::config::CircuitBreakerConfig;

verus! {

#[derive(Debug, Clone, Copy, PartialEq, Eq, Structural)]
pub enum BreakerState {
    Closed,
    Open,
    HalfOpen,
}

/// One finished call: when it ended (milliseconds) and whether it failed.
#[derive(Debug, Clone, Copy, PartialEq, Eq, Structural)]
pub struct CallRecord {
    pub at: u64,
    pub failed: bool,
}

/// Breaker state for one backend target. Without a policy the breaker is
/// disabled: it allows every call and keeps no record.
#[derive(Debug)]
pub struct Breaker {
    pub policy: Option<CircuitBreakerConfig>,
    pub state: BreakerState,
    /// When the state last changed (milliseconds).
    pub changed_at: u64,
    /// The calls of the current window, oldest first.
    pub calls: Vec<CallRecord>,
}

pub struct BreakerView {
    pub policy: Option<CircuitBreakerConfig>,
    pub state: BreakerState,
    pub changed_at: u64,
    pub calls: Seq<CallRecord>,
}

impl View for Breaker {
    type V = BreakerView;

    open spec fn view(&self) -> BreakerView {
        BreakerView {
            policy: self.policy,
            state: self.state,
            changed_at: self.changed_at,
            calls: self.calls@,
        }
    }
}

/// A call at `r.at` still counts at time `now`.
pub open spec fn in_window(r: CallRecord, now: u64, window: u64) -> bool {
    now - r.at < window
}

/// The calls of `s` that still count at `now`, in order.
pub open spec fn live(s: Seq<CallRecord>, now: u64, window: u64) -> Seq<CallRecord>
    decreases s.len(),
{
    if s.len() == 0 {
        seq![]
    } else {
        let l = live(s.drop_last(), now, window);
        if in_window(s.last(), now, window) {
            l.push(s.last())
        } else {
            l
        }
    }
}

/// How many calls of `s` failed.
pub open spec fn failures(s: Seq<CallRecord>) -> nat
    decreases s.len(),
{
    if s.len() == 0 {
        0
    } else {
        failures(s.drop_last()) + if s.last().failed {
            1nat
        } else {
            0nat
        }
    }
}

/// The cool-down of a breaker that changed state at `since` is over at `now`.
pub open spec fn cooled(since: u64, now: u64, window: u64) -> bool {
    now >= since + window
}

/// Whether the breaker lets a call through at `now`. An open breaker waits out
/// its window; a half-open one has a trial in flight, and lets another through
/// only when that trial has been silent for a whole window.
pub open spec fn allows(b: BreakerView, now: u64) -> bool {
    match b.policy {
        None => true,
        Some(p) => b.state == BreakerState::Closed || cooled(b.changed_at, now, p.window),
    }
}

/// The breaker after it let a call through at `now`: an open or half-open
/// breaker goes half-open, and the call is its trial.
pub open spec fn after_allow(b: BreakerView, now: u64) -> BreakerView {
    if b.policy.is_some() && b.state != BreakerState::Closed {
        BreakerView { state: BreakerState::HalfOpen, changed_at: now, ..b }
    } else {
        b
    }
}

/// The breaker after a call that ended at `now` and `failed` or not.
pub open spec fn after_call(b: BreakerView, failed: bool, now: u64) -> BreakerView {
    match b.policy {
        None => b,
        Some(p) => {
            let calls = live(b.calls, now, p.window).push(CallRecord { at: now, failed });
            if !failed && b.state == BreakerState::HalfOpen {
                BreakerView {
                    state: BreakerState::Closed,
                    changed_at: now,
                    calls: seq![CallRecord { at: now, failed: false }],
                    ..b
                }
            } else if failed && b.state == BreakerState::HalfOpen {
                BreakerView { state: BreakerState::Open, changed_at: now, calls, ..b }
            } else if failed && b.state == BreakerState::Closed && calls.len() >= p.min_requests
                && failures(calls) >= p.threshold {
                BreakerView { state: BreakerState::Open, changed_at: now, calls, ..b }
            } else {
                BreakerView { calls, ..b }
            }
        },
    }
}

pub open spec fn fresh(b: BreakerView, policy: Option<CircuitBreakerConfig>) -> bool {
    &&& b.policy == policy
    &&& b.state == BreakerState::Closed
    &&& b.calls.len() == 0
}

/// With a threshold and a minimum of three calls: a fresh breaker lets three
/// calls through, and if all three fail within one window it opens. While a
/// window has not elapsed since it opened it lets no call through; once one
/// has, the next call goes through as a half-open trial. A successful trial
/// closes the breaker with no failure counted; a failed trial opens it again.
pub proof fn lemma_trip_and_recover(
    b0: BreakerView,
    p: CircuitBreakerConfig,
    t1: u64,
    t2: u64,
    t3: u64,
    t4: u64,
    t5: u64,
    t6: u64,
)
    requires
        fresh(b0, Some(p)),
        p.threshold == 3,
        p.min_requests == 3,
        t1 <= t2 <= t3,
        t3 - t1 < p.window,
        t3 <= t4 < t3 + p.window,
        t5 >= t3 + p.window,
        t6 >= t5,
    ensures
        allows(b0, t1),
        allows(after_call(b0, true, t1), t2),
        allows(after_call(after_call(b0, true, t1), true, t2), t3),
        after_call(after_call(after_call(b0, true, t1), true, t2), true, t3).state
            == BreakerState::Open,
        !allows(after_call(after_call(after_call(b0, true, t1), true, t2), true, t3), t4),
        allows(after_call(after_call(after_call(b0, true, t1), true, t2), true, t3), t5),
        after_allow(after_call(after_call(after_call(b0, true, t1), true, t2), true, t3), t5).state
            == BreakerState::HalfOpen,
        after_call(
            after_allow(after_call(after_call(after_call(b0, true, t1), true, t2), true, t3), t5),
            false,
            t6,
        ).state == BreakerState::Closed,
        failures(
            after_call(
                after_allow(
                    after_call(after_call(after_call(b0, true, t1), true, t2), true, t3),
                    t5,
                ),
                false,
                t6,
            ).calls,
        ) == 0,
        after_call(
            after_allow(after_call(after_call(after_call(b0, true, t1), true, t2), true, t3), t5),
            true,
            t6,
        ).state == BreakerState::Open,
{
    let r1 = CallRecord { at: t1, failed: true };
    let r2 = CallRecord { at: t2, failed: true };
    let r3 = CallRecord { at: t3, failed: true };
    let b1 = after_call(b0, true, t1);
    assert(b0.calls =~= Seq::<CallRecord>::empty());
    assert(live(b0.calls, t1, p.window) =~= Seq::<CallRecord>::empty());
    assert(b1.calls =~= seq![r1]);
    assert(failures(seq![r1]) == 1) by {
        assert(seq![r1].drop_last() =~= Seq::<CallRecord>::empty());
        assert(failures(Seq::<CallRecord>::empty()) == 0);
    }
    assert(b1.state == BreakerState::Closed);
    let b2 = after_call(b1, true, t2);
    assert(live(seq![r1], t2, p.window) =~= seq![r1]) by {
        assert(seq![r1].drop_last() =~= Seq::<CallRecord>::empty());
        assert(live(Seq::<CallRecord>::empty(), t2, p.window) =~= Seq::<CallRecord>::empty());
        assert(in_window(r1, t2, p.window));
    }
    assert(b2.calls =~= seq![r1, r2]);
    assert(failures(seq![r1, r2]) == 2) by {
        assert(seq![r1, r2].drop_last() =~= seq![r1]);
        assert(seq![r1].drop_last() =~= Seq::<CallRecord>::empty());
    }
    assert(b2.state == BreakerState::Closed);
    let b3 = after_call(b2, true, t3);
    assert(live(seq![r1, r2], t3, p.window) =~= seq![r1, r2]) by {
        assert(seq![r1, r2].drop_last() =~= seq![r1]);
        assert(seq![r1].drop_last() =~= Seq::<CallRecord>::empty());
        assert(live(Seq::<CallRecord>::empty(), t3, p.window) =~= Seq::<CallRecord>::empty());
        assert(in_window(r1, t3, p.window));
        assert(live(seq![r1], t3, p.window) =~= seq![r1]);
        assert(in_window(r2, t3, p.window));
    }
    assert(b3.calls =~= seq![r1, r2, r3]);
    assert(failures(seq![r1, r2, r3]) == 3) by {
        assert(seq![r1, r2, r3].drop_last() =~= seq![r1, r2]);
        assert(seq![r1, r2].drop_last() =~= seq![r1]);
        assert(seq![r1].drop_last() =~= Seq::<CallRecord>::empty());
    }
    assert(b3.state == BreakerState::Open);
    let h = after_allow(b3, t5);
    let ok = CallRecord { at: t6, failed: false };
    assert(failures(seq![ok]) == 0) by {
        assert(seq![ok].drop_last() =~= Seq::<CallRecord>::empty());
        assert(failures(Seq::<CallRecord>::empty()) == 0);
    }
}

impl Breaker {
    pub fn new(policy: Option<CircuitBreakerConfig>) -> (r: Breaker)
        ensures
            fresh(r@, policy),
            r@.changed_at == 0,
    {
        Breaker { policy, state: BreakerState::Closed, changed_at: 0, calls: Vec::new() }
    }

    /// Decides whether a call may go through at `now`, and moves an open
    /// breaker whose cool-down is over to half-open.
    pub fn allow(&mut self, now: u64) -> (r: bool)
        ensures
            r == allows(old(self)@, now),
            final(self)@ == if r {
                after_allow(old(self)@, now)
            } else {
                old(self)@
            },
    {
        match self.policy {
            None => true,
            Some(p) => {
                if self.state == BreakerState::Closed {
                    true
                } else if now >= self.changed_at && now - self.changed_at >= p.window {
                    self.state = BreakerState::HalfOpen;
                    self.changed_at = now;
                    true
                } else {
                    false
                }
            },
        }
    }

    /// The failures among the calls of the current window.
    pub fn failure_count(&self) -> (r: usize)
        ensures
            r == failures(self.calls@),
    {
        let mut n: usize = 0;
        let mut i: usize = 0;
        while i < self.calls.len()
            invariant
                i <= self.calls@.len(),
                n == failures(self.calls@.subrange(0, i as int)),
                n <= i,
            decreases self.calls@.len() - i,
        {
            assert(self.calls@.subrange(0, i + 1).drop_last() =~= self.calls@.subrange(0, i as int));
            if self.calls[i].failed {
                n = n + 1;
            }
            i = i + 1;
        }
        assert(self.calls@.subrange(0, i as int) =~= self.calls@);
        n
    }

    fn prune(&mut self, now: u64, window: u64)
        ensures
            final(self)@ == (BreakerView { calls: live(old(self)@.calls, now, window), ..old(self)@ }),
    {
        let mut kept: Vec<CallRecord> = Vec::new();
        let mut i: usize = 0;
        while i < self.calls.len()
            invariant
                i <= self.calls@.len(),
                kept@ == live(self.calls@.subrange(0, i as int), now, window),
            decreases self.calls@.len() - i,
        {
            let r = self.calls[i];
            assert(self.calls@.subrange(0, i + 1).drop_last() =~= self.calls@.subrange(0, i as int));
            if r.at > now || now - r.at < window {
                kept.push(r);
            }
            i = i + 1;
        }
        assert(self.calls@.subrange(0, i as int) =~= self.calls@);
        self.calls = kept;
    }

    /// Records a finished call and applies the state transitions it causes.
    pub fn record(&mut self, failed: bool, now: u64)
        ensures
            final(self)@ == after_call(old(self)@, failed, now),
    {
        match self.policy {
            None => {},
            Some(p) => {
                if !failed && self.state == BreakerState::HalfOpen {
                    self.state = BreakerState::Closed;
                    self.changed_at = now;
                    self.calls = Vec::new();
                    self.calls.push(CallRecord { at: now, failed: false });
                    assert(self.calls@ =~= seq![CallRecord { at: now, failed: false }]);
                    return ;
                }
                self.prune(now, p.window);
                self.calls.push(CallRecord { at: now, failed });
                if failed && self.state == BreakerState::HalfOpen {
                    self.state = BreakerState::Open;
                    self.changed_at = now;
                } else if failed && self.state == BreakerState::Closed && self.calls.len()
                    >= p.min_requests as usize && self.failure_count() >= p.threshold as usize {
                    self.state = BreakerState::Open;
                    self.changed_at = now;
                }
            },
        }
    }
}

} // verus!
