//! The backend dispatcher of one endpoint. Each request is a session: the
//! caller asks for the next action, performs it (a backend call or a backoff
//! sleep) and reports the outcome, until a call succeeds or the dispatcher
//! gives up. Each retry pass restarts the rotation at the session's start.
use vstd::prelude::*;
use crate::breaker::{after_call, after_allow, allows, fresh, Breaker, BreakerView};
use crate::config::{BackendConfig, RetryConfig, DEFAULT_TIMEOUT_MS};
use crate::error::{DispatchError, Failure, RegistrationError};
use crate::text::{owned, same_text};
use vstd::arithmetic::div_mod::{
    lemma_fundamental_div_mod, lemma_mod_add_multiples_vanish, lemma_mod_multiples_vanish,
    lemma_small_mod,
};

verus! {

/// What one backend call came to.
#[derive(Debug, Clone, Copy, PartialEq, Eq, Structural)]
pub enum Outcome {
    Success,
    Failed(Failure),
}

/// A backend call to make.
#[derive(Debug, Clone)]
pub struct CallPlan {
    pub target: usize,
    pub method: String,
    pub url: String,
    /// Milliseconds.
    pub timeout: u64,
    /// Whether the request payload goes along as a JSON body.
    pub send_body: bool,
}

/// What the caller of a dispatch session must do next.
#[derive(Debug, Clone)]
pub enum Action {
    Call(CallPlan),
    /// Sleep this many milliseconds, then ask again: the next pass begins.
    Wait(u64),
    GiveUp(DispatchError),
}

/// The progress of one request through the rotation.
#[derive(Debug, Clone, Copy, PartialEq, Eq, Structural)]
pub struct DispatchSession {
    /// The rotation position every pass starts from.
    pub start: usize,
    /// The pass under way, from zero.
    pub pass: u32,
    /// How many positions of this pass were visited.
    pub step: usize,
    /// The target whose call is under way.
    pub in_flight: Option<usize>,
    pub last_failure: Option<Failure>,
}

#[derive(Debug)]
pub struct HttpClient {
    pub backends: Vec<BackendConfig>,
    pub breakers: Vec<Breaker>,
    /// Where the next request's rotation starts.
    pub cursor: usize,
    pub retry: Option<RetryConfig>,
}

pub open spec fn status_success(code: u16) -> bool {
    200 <= code <= 299
}

/// Classifies a backend's status code: a 2xx code is a success.
pub fn classify_status(code: u16) -> (r: Outcome)
    ensures
        r == (if status_success(code) {
            Outcome::Success
        } else {
            Outcome::Failed(Failure::NonSuccessStatus(code))
        }),
{
    if 200 <= code && code <= 299 {
        Outcome::Success
    } else {
        Outcome::Failed(Failure::NonSuccessStatus(code))
    }
}

/// The number of passes a retry policy asks for; at least one.
pub open spec fn passes_of(retry: Option<RetryConfig>) -> nat {
    match retry {
        Some(r) => if r.attempts >= 1 {
            r.attempts as nat
        } else {
            1
        },
        None => 1,
    }
}

pub open spec fn backoff_of(retry: Option<RetryConfig>) -> u64 {
    match retry {
        Some(r) => r.backoff,
        None => 0,
    }
}

/// The method a backend is called with: its override, else GET.
pub open spec fn method_of(b: BackendConfig) -> Seq<char> {
    match b.method {
        Some(m) => m@,
        None => seq!['G', 'E', 'T'],
    }
}

/// The call that dispatching to backend `b` at index `i` makes.
pub open spec fn plan_for(b: BackendConfig, i: usize, plan: CallPlan) -> bool {
    &&& plan.target == i
    &&& plan.method@ == method_of(b)
    &&& plan.url@ == b.url@
    &&& plan.timeout == match b.timeout {
        Some(t) => t,
        None => DEFAULT_TIMEOUT_MS,
    }
    &&& plan.send_body == (method_of(b) != seq!['G', 'E', 'T'])
}

pub open spec fn breaker_views(bs: Seq<Breaker>) -> Seq<BreakerView> {
    bs.map_values(|b: Breaker| b@)
}

/// The target visited at step `k` of a rotation that starts at `start`.
pub open spec fn rotation(start: int, k: int, n: int) -> int {
    (start + k) % n
}

/// The rotation step computed without overflow.
fn rotate(start: usize, k: usize, n: usize) -> (r: usize)
    requires
        start < n,
        k < n,
    ensures
        r as int == rotation(start as int, k as int, n as int),
        r < n,
{
    if k < n - start {
        proof {
            lemma_small_mod((start + k) as nat, n as nat);
        }
        start + k
    } else {
        let r = k - (n - start);
        proof {
            lemma_small_mod(r as nat, n as nat);
            lemma_mod_add_multiples_vanish(r as int, n as int);
        }
        r
    }
}

/// The cursor after `i` requests, each of which moved it on by one as `begin`
/// does, from `c0`.
pub open spec fn cursor_after(c0: int, n: int, i: nat) -> int
    decreases i,
{
    if i == 0 {
        c0
    } else {
        (cursor_after(c0, n, (i - 1) as nat) + 1) % n
    }
}

/// Among the first `m` requests from cursor `c0`, how many started at target `j`.
pub open spec fn starts_at(c0: int, n: int, m: nat, j: int) -> nat
    decreases m,
{
    if m == 0 {
        0
    } else {
        starts_at(c0, n, (m - 1) as nat, j) + if cursor_after(c0, n, (m - 1) as nat) == j {
            1nat
        } else {
            0nat
        }
    }
}

spec fn block_hits(c0: int, n: int, t: nat, j: int) -> nat
    decreases t,
{
    if t == 0 {
        0
    } else {
        block_hits(c0, n, (t - 1) as nat, j) + if (c0 + t - 1) % n == j {
            1nat
        } else {
            0nat
        }
    }
}

proof fn lemma_cursor_closed_form(c0: int, n: int, i: nat)
    requires
        0 <= c0 < n,
    ensures
        cursor_after(c0, n, i) == (c0 + i) % n,
    decreases i,
{
    if i > 0 {
        lemma_cursor_closed_form(c0, n, (i - 1) as nat);
        let y = c0 + i - 1;
        lemma_fundamental_div_mod(y, n);
        lemma_mod_multiples_vanish(y / n, y % n + 1, n);
        assert(c0 + i == n * (y / n) + (y % n + 1));
    } else {
        lemma_small_mod(c0 as nat, n as nat);
    }
}

proof fn lemma_wrap(c0: int, n: int, s: int)
    requires
        0 <= c0 < n,
        0 <= s < n,
    ensures
        (c0 + s) % n == if c0 + s < n {
            c0 + s
        } else {
            c0 + s - n
        },
{
    if c0 + s < n {
        lemma_small_mod((c0 + s) as nat, n as nat);
    } else {
        lemma_small_mod((c0 + s - n) as nat, n as nat);
        lemma_mod_add_multiples_vanish(c0 + s - n, n);
    }
}

proof fn lemma_block_once(c0: int, n: int, j: int, t: nat)
    requires
        0 <= c0 < n,
        0 <= j < n,
        t <= n,
    ensures
        block_hits(c0, n, t, j) == if t > (if j >= c0 {
            j - c0
        } else {
            j + n - c0
        }) {
            1nat
        } else {
            0nat
        },
    decreases t,
{
    if t > 0 {
        lemma_block_once(c0, n, j, (t - 1) as nat);
        lemma_wrap(c0, n, t - 1);
    }
}

proof fn lemma_block_shift(c0: int, n: int, j: int, k: nat, t: nat)
    requires
        0 <= c0 < n,
        t <= n,
    ensures
        starts_at(c0, n, (n * k + t) as nat, j) == starts_at(c0, n, (n * k) as nat, j) + block_hits(c0, n, t, j),
    decreases t,
{
    if t > 0 {
        lemma_block_shift(c0, n, j, k, (t - 1) as nat);
        let i = (n * k + t - 1) as nat;
        lemma_cursor_closed_form(c0, n, i);
        lemma_mod_multiples_vanish(k as int, c0 + t - 1, n);
        assert(c0 + i == n * k + (c0 + t - 1));
        assert((n * k + t) as nat - 1 == i);
    }
}

/// Round-robin fairness: over `n * k` requests on a dispatcher of `n`
/// targets, every target is where exactly `k` of the rotations start. With
/// every breaker letting calls through, the start is the target called.
pub proof fn lemma_round_robin_fair(c0: int, n: int, j: int, k: nat)
    requires
        0 <= c0 < n,
        0 <= j < n,
    ensures
        starts_at(c0, n, (n * k) as nat, j) == k,
    decreases k,
{
    if k > 0 {
        lemma_round_robin_fair(c0, n, j, (k - 1) as nat);
        lemma_block_shift(c0, n, j, (k - 1) as nat, n as nat);
        lemma_block_once(c0, n, j, n as nat);
        let km = (k - 1) as nat;
        assert(n * km + n == n * k) by (nonlinear_arith)
            requires
                km + 1 == k,
        ;
        assert(n * km >= 0) by (nonlinear_arith)
            requires
                n > 0,
        ;
        assert(block_hits(c0, n, n as nat, j) == 1);
    } else {
        assert(n * k == 0) by (nonlinear_arith)
            requires
                k == 0,
        ;
    }
}

impl HttpClient {
    pub open spec fn wf(&self) -> bool {
        &&& self.backends@.len() > 0
        &&& self.breakers@.len() == self.backends@.len()
        &&& self.cursor < self.backends@.len()
    }

    pub open spec fn session_ok(&self, s: DispatchSession) -> bool {
        &&& s.start < self.backends@.len()
        &&& s.step <= self.backends@.len()
        &&& s.pass < passes_of(self.retry)
        &&& s.in_flight matches Some(i) ==> i < self.backends@.len()
    }

    /// A dispatcher over `backends`, each with a fresh breaker under its own
    /// policy; retry passes follow the first backend's retry policy.
    pub fn new(backends: Vec<BackendConfig>) -> (r: Result<HttpClient, RegistrationError>)
        ensures
            r.is_err() == (backends@.len() == 0),
            r matches Err(e) ==> e == RegistrationError::NoBackends,
            r matches Ok(c) ==> {
                &&& c.wf()
                &&& c.backends@ == backends@
                &&& c.cursor == 0
                &&& c.retry == backends@[0].retry
                &&& forall|i: int|
                    0 <= i < backends@.len() ==> fresh(
                        #[trigger] c.breakers@[i]@,
                        backends@[i].circuit_breaker,
                    )
            },
    {
        if backends.len() == 0 {
            return Err(RegistrationError::NoBackends);
        }
        let mut breakers: Vec<Breaker> = Vec::new();
        let mut i: usize = 0;
        while i < backends.len()
            invariant
                i <= backends@.len(),
                breakers@.len() == i,
                forall|j: int|
                    0 <= j < i ==> fresh(#[trigger] breakers@[j]@, backends@[j].circuit_breaker),
            decreases backends@.len() - i,
        {
            breakers.push(Breaker::new(backends[i].circuit_breaker));
            i = i + 1;
        }
        let retry = backends[0].retry;
        Ok(HttpClient { backends, breakers, cursor: 0, retry })
    }

    fn passes(&self) -> (r: u32)
        ensures
            r as nat == passes_of(self.retry),
    {
        match self.retry {
            Some(r) => if r.attempts >= 1 {
                r.attempts
            } else {
                1
            },
            None => 1,
        }
    }

    /// Starts a request: its rotation begins at the cursor, and the cursor
    /// moves on by one for the next request.
    pub fn begin(&mut self) -> (s: DispatchSession)
        requires
            old(self).wf(),
        ensures
            final(self).wf(),
            final(self).cursor as int == (old(self).cursor + 1) % (old(self).backends@.len() as int),
            final(self).backends == old(self).backends,
            final(self).breakers == old(self).breakers,
            final(self).retry == old(self).retry,
            s == (DispatchSession {
                start: old(self).cursor,
                pass: 0,
                step: 0,
                in_flight: None,
                last_failure: None,
            }),
            final(self).session_ok(s),
    {
        let start = self.cursor;
        let n = self.backends.len();
        if start == n - 1 {
            self.cursor = 0;
            proof {
                lemma_mod_add_multiples_vanish(0, n as int);
                lemma_small_mod(0, n as nat);
            }
        } else {
            self.cursor = start + 1;
            proof {
                lemma_small_mod((start + 1) as nat, n as nat);
            }
        }
        DispatchSession { start, pass: 0, step: 0, in_flight: None, last_failure: None }
    }

    fn plan(&self, i: usize) -> (r: CallPlan)
        requires
            i < self.backends@.len(),
        ensures
            plan_for(self.backends@[i as int], i, r),
    {
        let b = &self.backends[i];
        let get = owned("GET");
        proof {
            reveal_strlit("GET");
        }
        let method = match &b.method {
            Some(m) => m.clone(),
            None => get,
        };
        assert(method@ == method_of(*b));
        let send_body = !same_text(method.as_str(), "GET");
        let timeout = match b.timeout {
            Some(t) => t,
            None => DEFAULT_TIMEOUT_MS,
        };
        let url = b.url.clone();
        assert(url@ == b.url@);
        assert("GET"@ =~= seq!['G', 'E', 'T']);
        assert(send_body == (method_of(*b) != seq!['G', 'E', 'T']));
        CallPlan { target: i, method, url, timeout, send_body }
    }

    /// Decides the next action of a session at time `now` (milliseconds):
    /// the first target of the remaining rotation whose breaker lets a call
    /// through, else a backoff before the next pass, else giving up with the
    /// last failure seen.
    pub fn next_action(&mut self, s: &mut DispatchSession, now: u64) -> (r: Action)
        requires
            old(self).wf(),
            old(self).session_ok(*old(s)),
            old(s).in_flight is None,
        ensures
            final(self).wf(),
            final(self).session_ok(*final(s)),
            final(self).backends == old(self).backends,
            final(self).cursor == old(self).cursor,
            final(self).retry == old(self).retry,
            final(s).start == old(s).start,
            final(s).last_failure == old(s).last_failure,
            ({
                let n = old(self).backends@.len() as int;
                let old_b = breaker_views(old(self).breakers@);
                let new_b = breaker_views(final(self).breakers@);
                match r {
                    Action::Call(plan) => {
                        let k = final(s).step - 1;
                        let i = rotation(old(s).start as int, k, n);
                        &&& old(s).step <= k < n
                        &&& plan_for(old(self).backends@[i], i as usize, plan)
                        &&& allows(old_b[i], now)
                        &&& forall|j: int|
                            old(s).step <= j < k ==> !allows(
                                #[trigger] old_b[rotation(old(s).start as int, j, n)],
                                now,
                            )
                        &&& new_b == old_b.update(i, after_allow(old_b[i], now))
                        &&& final(s).in_flight == Some(i as usize)
                        &&& final(s).pass == old(s).pass
                    },
                    Action::Wait(ms) => {
                        &&& forall|j: int|
                            old(s).step <= j < n ==> !allows(
                                #[trigger] old_b[rotation(old(s).start as int, j, n)],
                                now,
                            )
                        &&& old(s).pass + 1 < passes_of(old(self).retry)
                        &&& ms == backoff_of(old(self).retry)
                        &&& new_b == old_b
                        &&& final(s).pass == old(s).pass + 1
                        &&& final(s).step == 0
                        &&& final(s).in_flight is None
                    },
                    Action::GiveUp(e) => {
                        &&& forall|j: int|
                            old(s).step <= j < n ==> !allows(
                                #[trigger] old_b[rotation(old(s).start as int, j, n)],
                                now,
                            )
                        &&& old(s).pass + 1 >= passes_of(old(self).retry)
                        &&& e == DispatchError::AllBackendsExhausted(
                            match old(s).last_failure {
                                Some(f) => f,
                                None => Failure::CircuitOpen,
                            },
                        )
                        &&& new_b == old_b
                        &&& final(s).in_flight is None
                    },
                }
            }),
    {
        let n = self.backends.len();
        let ghost old_b = breaker_views(self.breakers@);
        let ghost step0 = s.step as int;
        while s.step < n
            invariant
                self.wf(),
                self.backends@.len() == n,
                self.backends == old(self).backends,
                self.cursor == old(self).cursor,
                self.retry == old(self).retry,
                s.start == old(s).start,
                s.pass == old(s).pass,
                s.last_failure == old(s).last_failure,
                self.session_ok(*s),
                s.in_flight is None,
                step0 == old(s).step,
                old_b == breaker_views(old(self).breakers@),
                step0 <= s.step,
                breaker_views(self.breakers@) == old_b,
                forall|j: int|
                    step0 <= j < s.step ==> !allows(
                        #[trigger] old_b[rotation(s.start as int, j, n as int)],
                        now,
                    ),
            decreases n - s.step,
        {
            let i = rotate(s.start, s.step, n);
            let ghost k = s.step as int;
            s.step = s.step + 1;
            let ghost before = self.breakers@;
            let ok = self.breakers[i].allow(now);
            assert(old_b[i as int] == before[i as int]@);
            if ok {
                s.in_flight = Some(i);
                proof {
                    assert(k == s.step - 1);
                    assert(i as int == rotation(s.start as int, k, n as int));
                    assert(allows(old_b[i as int], now));
                    assert(breaker_views(self.breakers@) =~= old_b.update(
                        i as int,
                        after_allow(old_b[i as int], now),
                    ));
                }
                return Action::Call(self.plan(i));
            }
            proof {
                assert(breaker_views(self.breakers@) =~= old_b);
            }
        }
        if s.pass + 1 < self.passes() {
            s.pass = s.pass + 1;
            s.step = 0;
            Action::Wait(
                match self.retry {
                    Some(r) => r.backoff,
                    None => 0,
                },
            )
        } else {
            let f = match s.last_failure {
                Some(f) => f,
                None => Failure::CircuitOpen,
            };
            Action::GiveUp(DispatchError::AllBackendsExhausted(f))
        }
    }

    /// Records the outcome of the call under way at time `now`. Returns
    /// whether the request is done, that is whether the call succeeded.
    pub fn on_outcome(&mut self, s: &mut DispatchSession, outcome: Outcome, now: u64) -> (r: bool)
        requires
            old(self).wf(),
            old(self).session_ok(*old(s)),
            old(s).in_flight is Some,
        ensures
            final(self).wf(),
            final(self).session_ok(*final(s)),
            final(self).backends == old(self).backends,
            final(self).cursor == old(self).cursor,
            final(self).retry == old(self).retry,
            r == (outcome == Outcome::Success),
            ({
                let i = old(s).in_flight->Some_0 as int;
                let failed = outcome != Outcome::Success;
                breaker_views(final(self).breakers@) == breaker_views(old(self).breakers@).update(
                    i,
                    after_call(old(self).breakers@[i]@, failed, now),
                )
            }),
            *final(s) == (DispatchSession {
                in_flight: None,
                last_failure: match outcome {
                    Outcome::Success => old(s).last_failure,
                    Outcome::Failed(f) => Some(f),
                },
                ..*old(s)
            }),
    {
        let i = match s.in_flight {
            Some(i) => i,
            None => 0,
        };
        let failed = match outcome {
            Outcome::Success => false,
            Outcome::Failed(f) => {
                s.last_failure = Some(f);
                true
            },
        };
        let ghost before = breaker_views(self.breakers@);
        self.breakers[i].record(failed, now);
        proof {
            assert(breaker_views(self.breakers@) =~= before.update(
                i as int,
                after_call(before[i as int], failed, now),
            ));
        }
        s.in_flight = None;
        !failed
    }
}

} // verus!
