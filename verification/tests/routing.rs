use std::collections::HashMap;

use ractor::factory::discard::WorkerDiscardSettings;
use ractor::factory::hash::hash_u64_with_max;
use ractor::factory::job::Job;
use ractor::factory::ratelim::{LeakyBucketRateLimiter, RateLimitedRouter};
use ractor::factory::routing::{
    CustomHashFunction, CustomRouting, KeyPersistentRouting, QueuerRouting, RoundRobinRouting,
    RouteResult, Router, StickyQueuerRouting,
};
use ractor::factory::worker::{WorkerMessage, WorkerProperties};
use ractor::{ActorId, ActorRef};
use tokio::sync::mpsc::UnboundedReceiver;

type Pool = HashMap<usize, WorkerProperties<u64>>;

fn pool(n: usize) -> (Pool, Vec<UnboundedReceiver<WorkerMessage<u64>>>) {
    let mut pool = HashMap::new();
    let mut rxs = Vec::new();
    for wid in 0..n {
        let (tx, rx) = tokio::sync::mpsc::unbounded_channel();
        let actor = ActorRef::new(ActorId::Local(wid as u64 + 100), tx);
        pool.insert(
            wid,
            WorkerProperties::new(
                "test".to_string(),
                wid,
                actor,
                WorkerDiscardSettings::Disabled,
                None,
                None,
                0,
            ),
        );
        rxs.push(rx);
    }
    (pool, rxs)
}

/// The keys of the jobs each worker was sent
fn received(rxs: &mut [UnboundedReceiver<WorkerMessage<u64>>]) -> Vec<Vec<u64>> {
    rxs.iter_mut()
        .map(|rx| {
            let mut keys = Vec::new();
            while let Ok(m) = rx.try_recv() {
                if let WorkerMessage::Dispatch(job) = m {
                    keys.push(job.key);
                }
            }
            keys
        })
        .collect()
}

#[test]
fn sticky_key_indexes_follow_worker_lifecycle() {
    let mut router = StickyQueuerRouting::default();

    Router::<()>::on_worker_key_change(&mut router, 2, Some(10));
    assert_eq!(Some(2), router.active_worker(10));
    assert_eq!(Some(10), router.worker_key(2));

    // Completion followed by another assignment on the same worker replaces the key.
    Router::<()>::on_worker_key_change(&mut router, 2, Some(11));
    assert_eq!(None, router.active_worker(10));
    assert_eq!(Some(2), router.active_worker(11));

    // Replacement or retry on another worker repairs both sides of the index.
    Router::<()>::on_worker_key_change(&mut router, 3, Some(11));
    assert_eq!(None, router.worker_key(2));
    assert_eq!(Some(11), router.worker_key(3));
    assert_eq!(Some(3), router.active_worker(11));

    // Failure, removal, and pool shrink all publish an empty current key.
    Router::<()>::on_worker_key_change(&mut router, 3, None);
    assert_eq!(None, router.active_worker(11));
    assert_eq!(None, router.worker_key(3));
}

#[test]
fn key_persistent_routes_by_key_hash() {
    let (mut pool, mut rxs) = pool(3);
    let mut router = KeyPersistentRouting::default();
    for key in [0u64, 10, 23, 128, 999] {
        let r = router.route_message(Job::new(key, key), 3, None, &mut pool, 0);
        assert!(matches!(r, Ok(RouteResult::Handled)));
    }
    let got = received(&mut rxs);
    // each worker starts the first job it gets; later ones wait in its queue
    for (wid, keys) in got.iter().enumerate() {
        for k in keys {
            assert_eq!(wid, hash_u64_with_max(*k, 3));
        }
    }
    // the first job routed to a worker is the one it processes
    let keys = [0u64, 10, 23, 128, 999];
    for wid in 0..3 {
        if let Some(first) = keys.iter().find(|k| hash_u64_with_max(**k, 3) == wid) {
            assert_eq!(vec![*first], got[wid]);
            assert!(pool[&wid].is_processing_key(*first));
        }
    }
}

#[test]
fn round_robin_cycles_through_workers() {
    let (mut pool, _rxs) = pool(3);
    let mut router = RoundRobinRouting::default();
    let mut chosen = Vec::new();
    for key in 0..5u64 {
        let job = Job::new(key, key);
        chosen.push(Router::<u64>::choose_target_worker(&mut router, &job, 3, None, &pool));
    }
    assert_eq!(vec![Some(1), Some(2), Some(0), Some(1), Some(2)], chosen);

    // a free hinted worker is taken as it is, without advancing the turn
    let job = Job::new(9, 9);
    assert_eq!(Some(0), Router::<u64>::choose_target_worker(&mut router, &job, 3, Some(0), &pool));
    assert_eq!(Some(0), Router::<u64>::choose_target_worker(&mut router, &job, 3, None, &pool));
    let _ = router.route_message(Job::new(1, 1), 3, None, &mut pool, 0);
}

#[test]
fn queuer_backlogs_until_a_worker_is_available() {
    let (mut pool, mut rxs) = pool(2);
    let mut router = QueuerRouting::default();
    match router.route_message(Job::new(5, 5), 2, None, &mut pool, 0) {
        Ok(RouteResult::Backlog(job)) => assert_eq!(5, job.key),
        _ => panic!("expected the job to be backlogged"),
    }
    Router::<u64>::on_worker_availability_change(&mut router, 1, true);
    let r = router.route_message(Job::new(6, 6), 2, None, &mut pool, 0);
    assert!(matches!(r, Ok(RouteResult::Handled)));
    let got = received(&mut rxs);
    assert_eq!(Vec::<u64>::new(), got[0]);
    assert_eq!(vec![6], got[1]);
    assert!(!pool[&1].is_available());
    assert!(pool[&1].is_processing_key(6));
}

#[test]
fn sticky_queuer_sends_a_key_to_the_worker_processing_it() {
    let (mut pool, mut rxs) = pool(2);
    let mut router = StickyQueuerRouting::default();
    Router::<u64>::on_worker_availability_change(&mut router, 0, true);
    Router::<u64>::on_worker_availability_change(&mut router, 1, true);
    assert!(matches!(
        router.route_message(Job::new(7, 1), 2, None, &mut pool, 0),
        Ok(RouteResult::Handled)
    ));
    Router::<u64>::on_worker_key_change(&mut router, 0, Some(7));
    // the same key goes to worker 0 although worker 1 is free
    assert!(matches!(
        router.route_message(Job::new(7, 2), 2, None, &mut pool, 0),
        Ok(RouteResult::Handled)
    ));
    let got = received(&mut rxs);
    assert_eq!(vec![7], got[0]);
    assert_eq!(Vec::<u64>::new(), got[1]);
    assert!(pool[&0].is_processing_key(7));
}

struct ModHasher;

impl CustomHashFunction for ModHasher {
    fn hash(&self, key: u64, worker_count: usize) -> usize {
        (key % worker_count as u64) as usize
    }
}

#[test]
fn custom_routing_uses_the_hasher() {
    let (mut pool, mut rxs) = pool(3);
    let mut router = CustomRouting::new(ModHasher);
    for key in [3u64, 4, 8] {
        let r = router.route_message(Job::new(key, key), 3, None, &mut pool, 0);
        assert!(matches!(r, Ok(RouteResult::Handled)));
    }
    let got = received(&mut rxs);
    assert_eq!(vec![3], got[0]);
    assert_eq!(vec![4], got[1]);
    assert_eq!(vec![8], got[2]);
}

#[test]
fn rate_limited_router_rejects_when_the_bucket_is_empty() {
    let (mut pool, _rxs) = pool(1);
    let mut router = RateLimitedRouter {
        router: KeyPersistentRouting::default(),
        rate_limiter: LeakyBucketRateLimiter::new_at(1, u64::MAX, 10, Some(1), 0),
    };
    assert!(matches!(
        router.route_message(Job::new(1, 1), 1, None, &mut pool, 0),
        Ok(RouteResult::Handled)
    ));
    match router.route_message(Job::new(2, 2), 1, None, &mut pool, 0) {
        Ok(RouteResult::RateLimited(job)) => assert_eq!(2, job.key),
        _ => panic!("expected the job to be rate limited"),
    }
}
