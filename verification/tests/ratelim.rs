use ractor::factory::ratelim::{LeakyBucketRateLimiter, RateLimiter, MAX_LB_BALANCE};
use ractor::factory::discard::WorkerDiscardSettings;
use ractor::factory::job::Job;
use ractor::factory::ratelim::RateLimitedRouter;
use ractor::factory::routing::{QueuerRouting, RouteResult, Router};
use ractor::factory::worker::{WorkerMessage, WorkerProperties};
use ractor::{ActorId, ActorRef};
use std::collections::HashMap;

const MS: u64 = 1_000_000;

#[test]
fn test_leaky_bucket_handles_zero_interval_and_saturates() {
    let mut limiter = LeakyBucketRateLimiter::new(usize::MAX, 0, 2, Some(usize::MAX));

    assert_eq!(2, limiter.balance);
    limiter.bump();
    assert!(limiter.check());
    assert_eq!(2, limiter.balance);
}

#[test]
fn test_leaky_bucket_tracks_sub_millisecond_periods() {
    let mut limiter = LeakyBucketRateLimiter::new(1, 500_000, 10, Some(0));
    let first_deadline = limiter.deadline.expect("deadline should be representable");

    limiter.refresh(first_deadline + 1_250_000);

    assert_eq!(3, limiter.balance);
    assert_eq!(
        first_deadline + 1_500_000,
        limiter
            .deadline
            .expect("deadline should remain representable")
    );
}

#[test]
fn test_leaky_bucket_handles_unrepresentable_interval() {
    let mut limiter = LeakyBucketRateLimiter::new(1, u64::MAX, 10, Some(0));

    assert!(limiter.deadline.is_none());
    assert!(!limiter.check());
}

#[test]
fn basic_leaky_bucket_over_time() {
    let mut limiter = LeakyBucketRateLimiter::new_at(1, 100 * MS, MAX_LB_BALANCE, Some(1), 0);

    assert!(limiter.check_at(0));
    limiter.bump();
    assert!(!limiter.check_at(0));

    // two intervals later
    assert!(limiter.check_at(200 * MS));
    limiter.bump();
    assert!(limiter.check_at(200 * MS));
    limiter.bump();
    assert!(!limiter.check_at(200 * MS));
}

#[test]
fn leaky_bucket_max_over_time() {
    let mut limiter = LeakyBucketRateLimiter::new_at(1, 100 * MS, 1, Some(1), 0);

    assert!(limiter.check_at(0));
    limiter.bump();
    assert!(!limiter.check_at(0));

    assert!(limiter.check_at(200 * MS));
    limiter.bump();
    assert!(!limiter.check_at(200 * MS));
}

#[test]
fn refresh_before_the_deadline_changes_nothing() {
    let mut limiter = LeakyBucketRateLimiter::new_at(5, 10, 100, Some(0), 1000);
    assert_eq!(Some(1010), limiter.deadline);
    limiter.refresh(1009);
    assert_eq!(0, limiter.balance);
    assert_eq!(Some(1010), limiter.deadline);
    limiter.refresh(1010);
    assert_eq!(5, limiter.balance);
    assert_eq!(Some(1020), limiter.deadline);
    limiter.refresh(1045);
    // three refills: at 1020, 1030, 1040
    assert_eq!(20, limiter.balance);
    assert_eq!(Some(1050), limiter.deadline);
}

#[test]
fn initial_balance_is_capped_and_bump_does_not_underflow() {
    let mut limiter = LeakyBucketRateLimiter::new_at(1, 10, 3, None, 0);
    assert_eq!(3, limiter.balance);
    let mut limiter2 = LeakyBucketRateLimiter::new_at(1, 10, 3, Some(50), 0);
    assert_eq!(3, limiter2.balance);
    limiter.balance = 0;
    limiter.bump();
    assert_eq!(0, limiter.balance);
    limiter2.bump();
    assert_eq!(2, limiter2.balance);
}

struct RejectAll;

impl RateLimiter for RejectAll {
    fn spec_checks(&self, _after: Self, r: bool) -> bool {
        !r
    }

    fn spec_bumps(&self, _after: Self) -> bool {
        true
    }

    fn check(&mut self) -> bool {
        false
    }

    fn bump(&mut self) {}
}

#[test]
fn rate_limit_rejection_restores_a_reserved_available_worker() {
    let (tx, _rx) = tokio::sync::mpsc::unbounded_channel::<WorkerMessage<()>>();
    let worker = WorkerProperties::new(
        "test".to_string(),
        0,
        ActorRef::new(ActorId::Local(1), tx),
        WorkerDiscardSettings::Disabled,
        None,
        None,
        0,
    );
    let mut pool = HashMap::from([(0usize, worker)]);
    let mut router = RateLimitedRouter { router: QueuerRouting::default(), rate_limiter: RejectAll };
    <RateLimitedRouter<QueuerRouting, RejectAll> as Router<()>>::on_worker_availability_change(&mut router, 0, true);
    let job = Job::new(0, ());

    let selected = router
        .choose_target_worker(&job, 1, None, &pool)
        .expect("an available worker should be reserved");
    assert!(matches!(
        router.route_message(job, 1, Some(selected), &mut pool, 0),
        Ok(RouteResult::RateLimited(_))
    ));
    assert_eq!(Some(0), router.choose_target_worker(&Job::new(0, ()), 1, None, &pool));
}
