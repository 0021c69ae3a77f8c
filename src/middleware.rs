//! The middleware pipeline: an ordered list of stages walked forward for
//! `pre_process` before the backend call and backward for `post_process`
//! after it. A failing `pre_process` stops the walk: later stages, the
//! backend call and every `post_process` are skipped.
use vstd::prelude::*;
use crate::context::HttpContext;
use crate::error::MiddlewareError;
use crate::message::{Request, Response};
use crate::metrics::{bumped, Metrics};
use crate::text::{owned, same_text};

verus! {

/// Records request and response events; never changes the context.
#[derive(Debug, Clone, Copy, PartialEq, Eq, Structural)]
pub struct LoggingMiddleware;

/// Counts requests on the way in and responses on the way out.
#[derive(Debug, Clone, Copy, PartialEq, Eq, Structural)]
pub struct MetricsMiddleware {
    pub requests: Metrics,
    pub responses: Metrics,
}

/// Lets a request through only when it presents the configured token, and
/// then puts that token into the context under `auth_token`.
#[derive(Debug, Clone)]
pub struct AuthMiddleware {
    pub auth_token: String,
}

/// A token bucket: `burst` requests at once (at least one), refilled at
/// `requests_per_second`. Tokens are counted in thousandths.
#[derive(Debug, Clone, Copy, PartialEq, Eq, Structural)]
pub struct RateLimitMiddleware {
    pub requests_per_second: u32,
    pub burst: u32,
    pub tokens: u64,
    /// When the bucket was last refilled (milliseconds).
    pub last: u64,
}

#[derive(Debug, Clone)]
pub enum Middleware {
    Logging(LoggingMiddleware),
    Metrics(MetricsMiddleware),
    Auth(AuthMiddleware),
    RateLimit(RateLimitMiddleware),
}

/// One whole token, in thousandths.
pub const TOKEN: u64 = 1000;

pub open spec fn capacity(burst: u32) -> int {
    (if burst > 0 {
        burst as int
    } else {
        1
    }) * 1000
}

/// The bucket's content at `now`, refilled since its last refill.
pub open spec fn refilled(r: RateLimitMiddleware, now: u64) -> int {
    let elapsed = if now > r.last {
        now - r.last
    } else {
        0
    };
    let total = r.tokens + elapsed * r.requests_per_second;
    if total > capacity(r.burst) {
        capacity(r.burst)
    } else {
        total
    }
}

pub open spec fn rate_admits(r: RateLimitMiddleware, now: u64) -> bool {
    refilled(r, now) >= TOKEN
}

/// The bucket after deciding on a request at `now`.
pub open spec fn rate_after(r: RateLimitMiddleware, now: u64) -> RateLimitMiddleware {
    let level = refilled(r, now);
    RateLimitMiddleware {
        tokens: (if level >= TOKEN {
            level - TOKEN
        } else {
            level
        }) as u64,
        last: if now > r.last {
            now
        } else {
            r.last
        },
        ..r
    }
}

pub open spec fn auth_key() -> Seq<char> {
    seq!['a', 'u', 't', 'h', '_', 't', 'o', 'k', 'e', 'n']
}

/// Whether stage `m` lets `req` through at `now`.
pub open spec fn pre_ok(m: Middleware, req: Request, now: u64) -> bool {
    match m {
        Middleware::Auth(a) => req.credential matches Some(c) && c@ == a.auth_token@,
        Middleware::RateLimit(r) => rate_admits(r, now),
        _ => true,
    }
}

pub open spec fn pre_error(m: Middleware) -> MiddlewareError {
    match m {
        Middleware::RateLimit(_) => MiddlewareError::RateLimited,
        _ => MiddlewareError::Unauthorized,
    }
}

/// Stage `m` after its `pre_process` at `now`.
pub open spec fn pre_next(m: Middleware, now: u64) -> Middleware {
    match m {
        Middleware::Metrics(x) => Middleware::Metrics(
            MetricsMiddleware {
                requests: Metrics { request_count: bumped(x.requests.request_count) },
                ..x
            },
        ),
        Middleware::RateLimit(r) => Middleware::RateLimit(rate_after(r, now)),
        _ => m,
    }
}

/// The context entries a successful `pre_process` of `m` adds.
pub open spec fn pre_adds(m: Middleware) -> Seq<(Seq<char>, Seq<char>)> {
    match m {
        Middleware::Auth(a) => seq![(auth_key(), a.auth_token@)],
        _ => seq![],
    }
}

/// Stage `m` after its `post_process`.
pub open spec fn post_next(m: Middleware) -> Middleware {
    match m {
        Middleware::Metrics(x) => Middleware::Metrics(
            MetricsMiddleware {
                responses: Metrics { request_count: bumped(x.responses.request_count) },
                ..x
            },
        ),
        _ => m,
    }
}

/// The context entries added by the successful `pre_process` of `stages`.
pub open spec fn adds_of(stages: Seq<Middleware>) -> Seq<(Seq<char>, Seq<char>)>
    decreases stages.len(),
{
    if stages.len() == 0 {
        seq![]
    } else {
        adds_of(stages.drop_last()) + pre_adds(stages.last())
    }
}

impl MetricsMiddleware {
    pub fn new() -> (r: MetricsMiddleware)
        ensures
            r.requests.request_count == 0,
            r.responses.request_count == 0,
    {
        MetricsMiddleware { requests: Metrics::new(), responses: Metrics::new() }
    }
}

impl AuthMiddleware {
    pub fn new(auth_token: String) -> (r: AuthMiddleware)
        ensures
            r.auth_token == auth_token,
    {
        AuthMiddleware { auth_token }
    }
}

impl RateLimitMiddleware {
    pub open spec fn new_spec(requests_per_second: u32, burst: u32) -> RateLimitMiddleware {
        RateLimitMiddleware { requests_per_second, burst, tokens: capacity(burst) as u64, last: 0 }
    }

    /// A full bucket.
    pub fn new(requests_per_second: u32, burst: u32) -> (r: RateLimitMiddleware)
        ensures
            r == RateLimitMiddleware::new_spec(requests_per_second, burst),
            r.tokens == capacity(burst),
    {
        let cap: u64 = if burst > 0 {
            burst as u64 * TOKEN
        } else {
            TOKEN
        };
        RateLimitMiddleware { requests_per_second, burst, tokens: cap, last: 0 }
    }

    /// Refills the bucket up to `now` and takes one token if there is one.
    pub fn take(&mut self, now: u64) -> (r: bool)
        ensures
            r == rate_admits(*old(self), now),
            *final(self) == rate_after(*old(self), now),
    {
        let elapsed: u64 = if now > self.last {
            now - self.last
        } else {
            0
        };
        let rate = self.requests_per_second;
        assert((elapsed as int) * (rate as int) <= 0xffff_ffff_ffff_ffffu64 as int * 0xffff_ffffu32 as int) by (nonlinear_arith)
            requires
                elapsed <= 0xffff_ffff_ffff_ffffu64,
                rate <= 0xffff_ffffu32,
        ;
        let total: u128 = self.tokens as u128 + (elapsed as u128) * (rate as u128);
        let cap: u64 = if self.burst > 0 {
            self.burst as u64 * TOKEN
        } else {
            TOKEN
        };
        let level: u64 = if total > cap as u128 {
            cap
        } else {
            total as u64
        };
        if now > self.last {
            self.last = now;
        }
        if level >= TOKEN {
            self.tokens = level - TOKEN;
            true
        } else {
            self.tokens = level;
            false
        }
    }
}

impl LoggingMiddleware {
    pub fn pre_process(&self, request: &Request, context: &mut HttpContext) -> (r: Result<
        (),
        MiddlewareError,
    >)
        ensures
            r.is_ok(),
            final(context).view_entries() == old(context).view_entries(),
    {
        Ok(())
    }

    pub fn post_process(&self, response: &Response, context: &mut HttpContext) -> (r: Result<
        (),
        MiddlewareError,
    >)
        ensures
            r.is_ok(),
            final(context).view_entries() == old(context).view_entries(),
    {
        Ok(())
    }
}

impl MetricsMiddleware {
    pub fn pre_process(&mut self, request: &Request, context: &mut HttpContext) -> (r: Result<
        (),
        MiddlewareError,
    >)
        ensures
            r.is_ok(),
            final(self).requests.request_count == bumped(old(self).requests.request_count),
            final(self).responses == old(self).responses,
            final(context).view_entries() == old(context).view_entries(),
    {
        self.requests.increment_request_count();
        Ok(())
    }

    pub fn post_process(&mut self, response: &Response, context: &mut HttpContext) -> (r: Result<
        (),
        MiddlewareError,
    >)
        ensures
            r.is_ok(),
            final(self).responses.request_count == bumped(old(self).responses.request_count),
            final(self).requests == old(self).requests,
            final(context).view_entries() == old(context).view_entries(),
    {
        self.responses.increment_request_count();
        Ok(())
    }
}

impl AuthMiddleware {
    /// Lets the request through only if it presents the configured token, and
    /// then records the token in the context.
    pub fn pre_process(&self, request: &Request, context: &mut HttpContext) -> (r: Result<
        (),
        MiddlewareError,
    >)
        ensures
            r.is_ok() == (request.credential matches Some(c) && c@ == self.auth_token@),
            r matches Err(e) ==> e == MiddlewareError::Unauthorized,
            final(context).view_entries() == old(context).view_entries() + if r.is_ok() {
                seq![(auth_key(), self.auth_token@)]
            } else {
                seq![]
            },
    {
        let ghost before = context.view_entries();
        let presented = match &request.credential {
            Some(c) => same_text(c.as_str(), self.auth_token.as_str()),
            None => false,
        };
        if presented {
            let key = owned("auth_token");
            proof {
                reveal_strlit("auth_token");
            }
            assert(key@ =~= auth_key());
            context.insert(key, self.auth_token.clone());
            Ok(())
        } else {
            assert(before + seq![] =~= before);
            Err(MiddlewareError::Unauthorized)
        }
    }

    pub fn post_process(&self, response: &Response, context: &mut HttpContext) -> (r: Result<
        (),
        MiddlewareError,
    >)
        ensures
            r.is_ok(),
            final(context).view_entries() == old(context).view_entries(),
    {
        Ok(())
    }
}

impl RateLimitMiddleware {
    /// Admits the request if the bucket holds a token at `now`.
    pub fn pre_process(&mut self, request: &Request, context: &mut HttpContext, now: u64) -> (r:
        Result<(), MiddlewareError>)
        ensures
            r.is_ok() == rate_admits(*old(self), now),
            r matches Err(e) ==> e == MiddlewareError::RateLimited,
            *final(self) == rate_after(*old(self), now),
            final(context).view_entries() == old(context).view_entries(),
    {
        if self.take(now) {
            Ok(())
        } else {
            Err(MiddlewareError::RateLimited)
        }
    }

    pub fn post_process(&self, response: &Response, context: &mut HttpContext) -> (r: Result<
        (),
        MiddlewareError,
    >)
        ensures
            r.is_ok(),
            final(context).view_entries() == old(context).view_entries(),
    {
        Ok(())
    }
}

impl Middleware {
    /// Runs this stage on the way in.
    pub fn pre_process(&mut self, request: &Request, context: &mut HttpContext, now: u64) -> (r:
        Result<(), MiddlewareError>)
        ensures
            r.is_ok() == pre_ok(*old(self), *request, now),
            r matches Err(e) ==> e == pre_error(*old(self)),
            *final(self) == pre_next(*old(self), now),
            final(context).view_entries() == old(context).view_entries() + if r.is_ok() {
                pre_adds(*old(self))
            } else {
                seq![]
            },
    {
        let ghost before = context.view_entries();
        assert(before + seq![] =~= before);
        match self {
            Middleware::Logging(m) => m.pre_process(request, context),
            Middleware::Metrics(m) => m.pre_process(request, context),
            Middleware::Auth(m) => m.pre_process(request, context),
            Middleware::RateLimit(m) => m.pre_process(request, context, now),
        }
    }

    /// Runs this stage on the way out. No built-in stage fails here.
    pub fn post_process(&mut self, response: &Response, context: &mut HttpContext) -> (r: Result<
        (),
        MiddlewareError,
    >)
        ensures
            r.is_ok(),
            *final(self) == post_next(*old(self)),
            final(context).view_entries() == old(context).view_entries(),
    {
        match self {
            Middleware::Logging(m) => m.post_process(response, context),
            Middleware::Metrics(m) => m.post_process(response, context),
            Middleware::Auth(m) => m.post_process(response, context),
            Middleware::RateLimit(m) => m.post_process(response, context),
        }
    }
}

/// The stages of one gateway, in the order their `pre_process` runs.
#[derive(Debug, Clone)]
pub struct MiddlewareChain {
    pub middleware: Vec<Middleware>,
}

impl MiddlewareChain {
    pub fn new() -> (r: MiddlewareChain)
        ensures
            r.middleware@.len() == 0,
    {
        MiddlewareChain { middleware: Vec::new() }
    }

    /// Appends a stage: its `pre_process` runs after those already there, its
    /// `post_process` before theirs.
    pub fn add(&mut self, middleware: Middleware)
        ensures
            final(self).middleware@ == old(self).middleware@.push(middleware),
    {
        self.middleware.push(middleware);
    }

    /// The stages in order.
    pub fn iter(&self) -> (r: &Vec<Middleware>)
        ensures
            r@ == self.middleware@,
    {
        &self.middleware
    }

    /// Runs every stage's `pre_process` in order and stops at the first that
    /// fails, returning its position and error.
    pub fn run_pre(&mut self, request: &Request, context: &mut HttpContext, now: u64) -> (r: Result<
        (),
        (usize, MiddlewareError),
    >)
        ensures
            final(self).middleware@.len() == old(self).middleware@.len(),
            ({
                let s0 = old(self).middleware@;
                let s1 = final(self).middleware@;
                match r {
                    Ok(_) => {
                        &&& forall|j: int|
                            0 <= j < s0.len() ==> pre_ok(#[trigger] s0[j], *request, now) && s1[j]
                                == pre_next(s0[j], now)
                        &&& final(context).view_entries() == old(context).view_entries() + adds_of(
                            s0,
                        )
                    },
                    Err((i, e)) => {
                        &&& i < s0.len()
                        &&& forall|j: int|
                            0 <= j < i ==> pre_ok(#[trigger] s0[j], *request, now) && s1[j]
                                == pre_next(s0[j], now)
                        &&& !pre_ok(s0[i as int], *request, now)
                        &&& e == pre_error(s0[i as int])
                        &&& s1[i as int] == pre_next(s0[i as int], now)
                        &&& forall|j: int| i < j < s0.len() ==> #[trigger] s1[j] == s0[j]
                        &&& final(context).view_entries() == old(context).view_entries() + adds_of(
                            s0.subrange(0, i as int),
                        )
                    },
                }
            }),
    {
        let ghost s0 = self.middleware@;
        let ghost c0 = context.view_entries();
        let mut i: usize = 0;
        assert(c0 + adds_of(s0.subrange(0, 0)) =~= c0);
        while i < self.middleware.len()
            invariant
                s0 == old(self).middleware@,
                c0 == old(context).view_entries(),
                i <= s0.len(),
                self.middleware@.len() == s0.len(),
                forall|j: int|
                    0 <= j < i ==> pre_ok(#[trigger] s0[j], *request, now) && self.middleware@[j]
                        == pre_next(s0[j], now),
                forall|j: int| i <= j < s0.len() ==> #[trigger] self.middleware@[j] == s0[j],
                context.view_entries() == c0 + adds_of(s0.subrange(0, i as int)),
            decreases s0.len() - i,
        {
            let ghost ctx_before = context.view_entries();
            let res = self.middleware[i].pre_process(request, context, now);
            proof {
                let sub = s0.subrange(0, i + 1);
                assert(sub.drop_last() =~= s0.subrange(0, i as int));
                assert(sub.last() == s0[i as int]);
            }
            match res {
                Ok(_) => {
                    assert(context.view_entries() =~= c0 + adds_of(s0.subrange(0, i + 1)));
                },
                Err(e) => {
                    assert(context.view_entries() =~= ctx_before);
                    return Err((i, e));
                },
            }
            i = i + 1;
        }
        assert(s0.subrange(0, s0.len() as int) =~= s0);
        Ok(())
    }

    /// Runs every stage's `post_process` in reverse order, stopping at the
    /// first that fails.
    pub fn run_post(&mut self, response: &Response, context: &mut HttpContext) -> (r: Result<
        (),
        MiddlewareError,
    >)
        ensures
            r.is_ok(),
            final(self).middleware@.len() == old(self).middleware@.len(),
            forall|j: int|
                0 <= j < old(self).middleware@.len() ==> #[trigger] final(self).middleware@[j]
                    == post_next(old(self).middleware@[j]),
            final(context).view_entries() == old(context).view_entries(),
    {
        let ghost s0 = self.middleware@;
        let mut i: usize = self.middleware.len();
        while i > 0
            invariant
                s0 == old(self).middleware@,
                i <= s0.len(),
                self.middleware@.len() == s0.len(),
                forall|j: int| i <= j < s0.len() ==> #[trigger] self.middleware@[j] == post_next(s0[j]),
                forall|j: int| 0 <= j < i ==> #[trigger] self.middleware@[j] == s0[j],
                context.view_entries() == old(context).view_entries(),
            decreases i,
        {
            i = i - 1;
            self.middleware[i].post_process(response, context)?;
        }
        Ok(())
    }
}

} // verus!
