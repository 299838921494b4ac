//! Rate limiting for factory routers: a router wrapped with a rate limiter, and
//! a leaky-bucket rate limiter. Instants and durations are in nanoseconds.
use vstd::prelude::*;
use std::collections::HashMap;

use crate::concurrency::{now_nanos, spec_clock_reading};
use crate::errors::MessagingErr;
use crate::factory::job::Job;
use crate::factory::routing::{spec_free_in, RouteResult, Router};
use crate::factory::worker::WorkerProperties;
use crate::factory::WorkerId;

verus! {

broadcast use vstd::std_specs::hash::group_hash_axioms;

/// The maximum supported balance for leaky bucket rate limiting: the largest
/// `isize`.
pub const MAX_LB_BALANCE: usize = usize::MAX >> 1;

/// Controls the rate at which messages are routed
pub trait RateLimiter: Sized {
    /// Whether checking may take the limiter from `self` to `after` and
    /// answer `r`
    spec fn spec_checks(&self, after: Self, r: bool) -> bool;

    /// Whether counting a routed message may take the limiter from `self` to
    /// `after`
    spec fn spec_bumps(&self, after: Self) -> bool;

    /// Whether routing may go on: `false` when the limit is reached and
    /// traffic should be rate limited
    fn check(&mut self) -> (r: bool)
        ensures
            old(self).spec_checks(*final(self), r),
    ;

    /// Count a message routed to a worker
    fn bump(&mut self)
        ensures
            old(self).spec_bumps(*final(self)),
    ;
}

/// A router wrapped with a rate limiter: a job is only routed while the rate
/// limiter allows it, and each job handled counts against the limit.
pub struct RateLimitedRouter<TRouter, TRateLimit> {
    /// The underlying router, which does no rate limiting
    pub router: TRouter,
    /// The rate limiter applied to routing
    pub rate_limiter: TRateLimit,
}

impl<TMsg, TRouter: Router<TMsg>, TRateLimit: RateLimiter> Router<TMsg> for RateLimitedRouter<
    TRouter,
    TRateLimit,
> {
    open spec fn router_wf(&self) -> bool {
        self.router.router_wf()
    }

    /// The underlying router accepts the route, and a hinted worker can be put
    /// back in the underlying router's bookkeeping
    open spec fn accepts_route(&self, pool_size: usize, worker_hint: Option<WorkerId>) -> bool {
        &&& self.router.accepts_route(pool_size, worker_hint)
        &&& worker_hint matches Some(h) ==> h < usize::MAX
    }

    open spec fn spec_factory_queueing(&self) -> bool {
        self.router.spec_factory_queueing()
    }

    /// The rate limiter is checked first. When it refuses, the job is given
    /// back rate limited with the pool unchanged, and a free hinted worker is
    /// reported available to the underlying router. When it allows, the
    /// underlying router routes the job, and the rate limiter counts the job
    /// only when it was handled.
    open spec fn spec_routes(
        &self,
        after: Self,
        job: Job<TMsg>,
        pool_size: usize,
        worker_hint: Option<WorkerId>,
        pool_before: Map<WorkerId, WorkerProperties<TMsg>>,
        pool_after: Map<WorkerId, WorkerProperties<TMsg>>,
        now: u64,
        r: Result<RouteResult<TMsg>, MessagingErr<()>>,
    ) -> bool {
        ||| {
            &&& self.rate_limiter.spec_checks(after.rate_limiter, false)
            &&& r matches Ok(RouteResult::RateLimited(j)) && j == job
            &&& pool_after == pool_before
            &&& match worker_hint {
                Some(h) => if spec_free_in(pool_before, h) {
                    self.router.spec_marks(after.router, h, true)
                } else {
                    after.router == self.router
                },
                None => after.router == self.router,
            }
        }
        ||| exists|checked: TRateLimit|
            {
                &&& #[trigger] self.rate_limiter.spec_checks(checked, true)
                &&& self.router.spec_routes(
                    after.router,
                    job,
                    pool_size,
                    worker_hint,
                    pool_before,
                    pool_after,
                    now,
                    r,
                )
                &&& if r matches Ok(RouteResult::Handled) {
                    checked.spec_bumps(after.rate_limiter)
                } else {
                    after.rate_limiter == checked
                }
            }
    }

    /// The underlying router chooses; the rate limiter is not consulted
    open spec fn spec_chooses(
        &self,
        after: Self,
        job: Job<TMsg>,
        pool_size: usize,
        worker_hint: Option<WorkerId>,
        pool: Map<WorkerId, WorkerProperties<TMsg>>,
        r: Option<WorkerId>,
    ) -> bool {
        &&& self.router.spec_chooses(after.router, job, pool_size, worker_hint, pool, r)
        &&& after.rate_limiter == self.rate_limiter
    }

    /// The underlying router is told; the rate limiter is unchanged
    open spec fn spec_marks(&self, after: Self, wid: WorkerId, available: bool) -> bool {
        &&& self.router.spec_marks(after.router, wid, available)
        &&& after.rate_limiter == self.rate_limiter
    }

    /// The underlying router is told; the rate limiter is unchanged
    open spec fn spec_rekeys(&self, after: Self, wid: WorkerId, key: Option<u64>) -> bool {
        &&& self.router.spec_rekeys(after.router, wid, key)
        &&& after.rate_limiter == self.rate_limiter
    }

    /// When the rate limiter refuses, the job is given back rate limited (a free
    /// hinted worker, which the factory had reserved, is reported available
    /// again). Otherwise the underlying router routes the job, and a handled
    /// job is counted by the rate limiter.
    fn route_message(
        &mut self,
        job: Job<TMsg>,
        pool_size: usize,
        worker_hint: Option<WorkerId>,
        worker_pool: &mut HashMap<WorkerId, WorkerProperties<TMsg>>,
        now: u64,
    ) -> (r: Result<RouteResult<TMsg>, MessagingErr<()>>) {
        let allowed = self.rate_limiter.check();
        let ghost checked = self.rate_limiter;
        if !allowed {
            if let Some(wid) = worker_hint {
                let free = match worker_pool.get(&wid) {
                    Some(worker) => worker.is_available(),
                    None => false,
                };
                if free {
                    self.router.on_worker_availability_change(wid, true);
                }
            }
            Ok(RouteResult::RateLimited(job))
        } else {
            let result = self.router.route_message(job, pool_size, worker_hint, worker_pool, now);
            if let Ok(RouteResult::Handled) = result {
                // only a routed job counts against the limit
                self.rate_limiter.bump();
            }
            proof {
                assert(old(self).rate_limiter.spec_checks(checked, true));
            }
            result
        }
    }

    fn choose_target_worker(
        &mut self,
        job: &Job<TMsg>,
        pool_size: usize,
        worker_hint: Option<WorkerId>,
        worker_pool: &HashMap<WorkerId, WorkerProperties<TMsg>>,
    ) -> (r: Option<WorkerId>) {
        self.router.choose_target_worker(job, pool_size, worker_hint, worker_pool)
    }

    fn can_route(&self, pool_size: usize, worker_hint: Option<WorkerId>) -> (r: bool) {
        let inner = self.router.can_route(pool_size, worker_hint);
        match worker_hint {
            Some(h) => inner && h < usize::MAX,
            None => inner,
        }
    }

    fn is_factory_queueing(&self) -> (r: bool) {
        self.router.is_factory_queueing()
    }

    fn on_worker_availability_change(&mut self, wid: WorkerId, available: bool) {
        self.router.on_worker_availability_change(wid, available);
    }

    fn on_worker_key_change(&mut self, wid: WorkerId, key: Option<u64>) {
        self.router.on_worker_key_change(wid, key);
    }
}

/// A leaky-bucket rate limiter: `refill` tokens are added every `interval`, up
/// to `max`, and each routed message takes one.
pub struct LeakyBucketRateLimiter {
    /// Tokens to add every interval
    pub refill: usize,
    /// Interval between refills, in nanoseconds
    pub interval: u64,
    /// Max number of tokens associated with the rate limiter
    pub max: usize,
    /// The number of tokens still available
    pub balance: usize,
    /// The instant of the next refill; none when it cannot be represented
    pub deadline: Option<u64>,
}

/// The smaller of two numbers
pub open spec fn spec_min(a: int, b: int) -> int {
    if a <= b {
        a
    } else {
        b
    }
}

/// The balance after adding `tokens` (saturating at the largest `usize`),
/// capped at `max`
pub open spec fn spec_topped_up(balance: usize, tokens: int, max: usize) -> usize {
    spec_min(spec_min(balance + tokens, usize::MAX as int), max as int) as usize
}

/// The tokens due `since` nanoseconds after a deadline: one refill for the
/// deadline and one per whole interval since, saturating, and at most
/// `MAX_LB_BALANCE`
pub open spec fn spec_tokens_due(since: u64, interval: u64, refill: usize) -> int
    recommends
        interval > 0,
{
    let periods = spec_min(spec_min(since / interval + 1, u64::MAX as int), usize::MAX as int);
    spec_min(spec_min(periods * refill, usize::MAX as int), MAX_LB_BALANCE as int)
}

/// The next deadline `since` nanoseconds after a deadline, at instant `now`:
/// the end of the current interval, if it can be represented
pub open spec fn spec_next_deadline(now: u64, since: u64, interval: u64) -> Option<u64>
    recommends
        interval > 0,
{
    let next = now + (interval - since % interval);
    if next <= u64::MAX {
        Some(next as u64)
    } else {
        None
    }
}

impl LeakyBucketRateLimiter {
    /// A limiter created at instant `now`: the balance starts at `initial`
    /// (`max` when not given), at most `max`; the first refill is an interval
    /// from now.
    pub fn new_at(refill: usize, interval: u64, max: usize, initial: Option<usize>, now: u64) -> (r:
        Self)
        ensures
            r.refill == refill,
            r.interval == interval,
            r.max == max,
            r.balance == match initial {
                Some(i) => spec_min(i as int, max as int) as usize,
                None => max,
            },
            r.deadline == now.checked_add(interval),
    {
        let start = match initial {
            Some(i) => i,
            None => max,
        };
        let balance = if start < max {
            start
        } else {
            max
        };
        LeakyBucketRateLimiter { refill, interval, max, balance, deadline: now.checked_add(interval) }
    }

    /// A limiter created now (see `new_at`)
    pub fn new(refill: usize, interval: u64, max: usize, initial: Option<usize>) -> (r: Self)
        ensures
            r.refill == refill,
            r.interval == interval,
            r.max == max,
            r.balance == match initial {
                Some(i) => spec_min(i as int, max as int) as usize,
                None => max,
            },
            exists|now: u64| spec_clock_reading(now) && r.deadline == now.checked_add(interval),
    {
        let now = now_nanos();
        Self::new_at(refill, interval, max, initial, now)
    }

    /// Refill the bucket at instant `now`. Before the deadline, or with no
    /// deadline, nothing changes. With a zero interval the bucket is refilled
    /// once and the deadline is now. Otherwise the tokens due since the
    /// deadline are added (up to `max`), and the next deadline is the end of
    /// the current interval.
    pub fn refresh(&mut self, now: u64)
        ensures
            spec_refreshed(*old(self), *final(self), now),
    {
        let deadline = match self.deadline {
            Some(d) => d,
            None => {
                return ;
            },
        };
        if now < deadline {
            return ;
        }
        if self.interval == 0 {
            self.balance = self.topped_up(self.refill);
            self.deadline = Some(now);
            return ;
        }
        let since = now - deadline;
        let whole = since / self.interval;
        let periods_u64 = whole.saturating_add(1);
        let periods: usize = if periods_u64 as u128 > usize::MAX as u128 {
            usize::MAX
        } else {
            periods_u64 as usize
        };
        let product: usize = if self.refill != 0 && periods > usize::MAX / self.refill {
            usize::MAX
        } else {
            proof {
                if self.refill != 0 {
                    lemma_mul_fits(periods as int, self.refill as int, usize::MAX as int);
                }
            }
            periods * self.refill
        };
        let tokens = if product < MAX_LB_BALANCE {
            product
        } else {
            MAX_LB_BALANCE
        };
        proof {
            if self.refill != 0 && periods > usize::MAX / self.refill {
                lemma_mul_saturates(periods as int, self.refill as int, usize::MAX as int);
            }
        }
        let into_period = since % self.interval;
        self.deadline = now.checked_add(self.interval - into_period);
        self.balance = self.topped_up(tokens);
    }

    /// The balance with `tokens` added (saturating), capped at `max`
    fn topped_up(&self, tokens: usize) -> (r: usize)
        ensures
            r == spec_topped_up(self.balance, tokens as int, self.max),
    {
        let sum = self.balance.saturating_add(tokens);
        if sum < self.max {
            sum
        } else {
            self.max
        }
    }

    /// Whether a message may be routed at instant `now`, after refilling the
    /// bucket at `now`: tokens remain
    pub fn check_at(&mut self, now: u64) -> (r: bool)
        ensures
            spec_refreshed(*old(self), *final(self), now),
            r == (final(self).balance > 0),
    {
        self.refresh(now);
        self.balance > 0
    }
}

/// Whether `after` is `before` refilled at instant `now` (see `refresh`)
pub open spec fn spec_refreshed(
    before: LeakyBucketRateLimiter,
    after: LeakyBucketRateLimiter,
    now: u64,
) -> bool {
    &&& after.refill == before.refill
    &&& after.interval == before.interval
    &&& after.max == before.max
    &&& match before.deadline {
        None => after.balance == before.balance && after.deadline is None,
        Some(d) => if now < d {
            after.balance == before.balance && after.deadline == Some(d)
        } else if before.interval == 0 {
            &&& after.balance == spec_topped_up(before.balance, before.refill as int, before.max)
            &&& after.deadline == Some(now)
        } else {
            let since = (now - d) as u64;
            &&& after.balance == spec_topped_up(
                before.balance,
                spec_tokens_due(since, before.interval, before.refill),
                before.max,
            )
            &&& after.deadline == spec_next_deadline(now, since, before.interval)
        },
    }
}

/// A refill never takes a balance within `max` out of it, and never lowers it:
/// the bucket holds at most `max` tokens.
pub proof fn lemma_refill_within_max(
    before: LeakyBucketRateLimiter,
    after: LeakyBucketRateLimiter,
    now: u64,
)
    requires
        spec_refreshed(before, after, now),
        before.balance <= before.max,
    ensures
        before.balance <= after.balance <= after.max,
{
    if let Some(d) = before.deadline {
        if now >= d && before.interval > 0 {
            let since = (now - d) as u64;
            let periods = spec_min(
                spec_min(since / before.interval + 1, u64::MAX as int),
                usize::MAX as int,
            );
            assert(periods >= 0);
            assert(periods * before.refill >= 0) by (nonlinear_arith)
                requires
                    periods >= 0,
                    before.refill >= 0,
            ;
        }
    }
}

/// `a * b` is at most `m` when `a` is at most `m` divided by `b`
proof fn lemma_mul_fits(a: int, b: int, m: int)
    requires
        0 <= a,
        0 < b,
        0 <= m,
        a <= m / b,
    ensures
        a * b <= m,
{
    assert(a * b <= (m / b) * b) by (nonlinear_arith)
        requires
            0 <= a <= m / b,
            0 < b,
    ;
    assert((m / b) * b <= m) by (nonlinear_arith)
        requires
            0 < b,
            0 <= m,
    ;
}

/// `a * b` exceeds `m` when `a` is more than `m` divided by `b`
proof fn lemma_mul_saturates(a: int, b: int, m: int)
    requires
        0 < b,
        0 <= m,
        a > m / b,
    ensures
        a * b > m,
{
    assert(a * b >= (m / b + 1) * b) by (nonlinear_arith)
        requires
            a >= m / b + 1,
            0 < b,
    ;
    assert((m / b + 1) * b > m) by (nonlinear_arith)
        requires
            0 < b,
            0 <= m,
    ;
}

impl RateLimiter for LeakyBucketRateLimiter {
    /// The bucket is refilled at some instant, and the answer is whether
    /// tokens remain
    open spec fn spec_checks(&self, after: Self, r: bool) -> bool {
        &&& exists|now: u64| spec_clock_reading(now) && spec_refreshed(*self, after, now)
        &&& r == (after.balance > 0)
    }

    /// A token is taken, if any remains
    open spec fn spec_bumps(&self, after: Self) -> bool {
        after == (LeakyBucketRateLimiter {
            balance: if self.balance > 0 {
                (self.balance - 1) as usize
            } else {
                0
            },
            ..*self
        })
    }

    /// Refill the bucket now, and tell whether tokens remain
    fn check(&mut self) -> (r: bool) {
        let now = now_nanos();
        self.check_at(now)
    }

    /// Take a token, if any remains
    fn bump(&mut self) {
        if self.balance > 0 {
            self.balance = self.balance - 1;
        }
    }
}

/// The tokens due after `q` whole intervals past a deadline are `(q + 1) *
/// refill` when that does not exceed the largest supported balance.
proof fn lemma_tokens_due_exact(since: u64, interval: u64, refill: usize)
    requires
        interval > 0,
        (since / interval + 1) * refill <= MAX_LB_BALANCE,
    ensures
        spec_tokens_due(since, interval, refill) == (since / interval + 1) * refill,
{
    let q = since / interval;
    let m: usize = usize::MAX;
    assert((m >> 1usize) == m / 2) by (bit_vector);
    assert(MAX_LB_BALANCE == m / 2);
    assert(MAX_LB_BALANCE < usize::MAX);
    if refill > 0 {
        assert((q + 1) * refill >= q + 1) by (nonlinear_arith)
            requires
                refill >= 1,
                q >= 0,
        ;
        assert(q + 1 <= u64::MAX) by {
            assert(q + 1 <= MAX_LB_BALANCE);
        }
    } else {
        assert((q + 1) * refill == 0) by (nonlinear_arith)
            requires
                refill == 0,
        ;
        let periods = spec_min(spec_min(q + 1, u64::MAX as int), usize::MAX as int);
        assert(periods * refill == 0) by (nonlinear_arith)
            requires
                refill == 0,
        ;
    }
}

/// A check refills the bucket by the whole intervals elapsed at a clock
/// reading: before the deadline nothing is added; `q` whole intervals after
/// it, `(q + 1) * refill` tokens are added (up to `max`, when that count does
/// not exceed the largest supported balance), and the next deadline is the
/// end of the current interval. The check allows routing exactly when tokens
/// remain.
pub proof fn lemma_check_refills_by_elapsed_intervals(
    before: LeakyBucketRateLimiter,
    after: LeakyBucketRateLimiter,
    allowed: bool,
    deadline: u64,
)
    requires
        before.spec_checks(after, allowed),
        before.deadline == Some(deadline),
        before.interval > 0,
        before.balance <= before.max,
    ensures
        allowed == (after.balance > 0),
        exists|now: u64|
            {
                &&& spec_clock_reading(now)
                &&& now < deadline ==> after.balance == before.balance && after.deadline == Some(
                    deadline,
                )
                &&& now >= deadline && ((now - deadline) / (before.interval as int) + 1)
                    * before.refill <= MAX_LB_BALANCE ==> after.balance == spec_min(
                    before.balance + ((now - deadline) / (before.interval as int) + 1)
                        * before.refill,
                    before.max as int,
                )
                &&& now >= deadline && now + before.interval <= u64::MAX ==> (after.deadline matches Some(
                    next,
                ) && now < next <= now + before.interval && (next - deadline) % (
                before.interval as int) == 0)
            },
{
    let now = choose|now: u64| spec_clock_reading(now) && spec_refreshed(before, after, now);
    if now >= deadline {
        let since = (now - deadline) as u64;
        let q = since / before.interval;
        if (q + 1) * before.refill <= MAX_LB_BALANCE {
            lemma_tokens_due_exact(since, before.interval, before.refill);
        }
        let i = before.interval as int;
        let sn = since as int;
        let qi: int = sn / i;
        let r: int = sn % i;
        assert(sn == qi * i + r && 0 <= r < i) by (nonlinear_arith)
            requires
                i > 0,
                qi == sn / i,
                r == sn % i,
        ;
        let next = now + (i - r);
        assert(next - deadline == (qi + 1) * i) by (nonlinear_arith)
            requires
                next == now + (i - r),
                now - deadline == sn,
                sn == qi * i + r,
        ;
        assert((next - deadline) % i == 0) by (nonlinear_arith)
            requires
                next - deadline == (qi + 1) * i,
                i > 0,
                qi >= 0,
        ;
    }
}

} // verus!
