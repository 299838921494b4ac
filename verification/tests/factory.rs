use ractor::factory::discard::{DiscardMode, DiscardReason, DiscardSettings};
use ractor::factory::factoryimpl::{Factory, FactoryState};
use ractor::factory::job::{Job, JobOptions};
use ractor::factory::queues::{DefaultQueue, PriorityManager, PriorityQueue, Queue, StandardPriority};
use ractor::factory::routing::{QueuerRouting, RoundRobinRouting, Router};
use ractor::factory::worker::WorkerMessage;
use ractor::factory::FactoryMessage;
use ractor::{ActorId, ActorRef};
use tokio::sync::mpsc::UnboundedReceiver;

type State = FactoryState<u64, QueuerRouting, DefaultQueue<u64>>;

fn with_workers(n: usize, settings: DiscardSettings) -> (State, Vec<UnboundedReceiver<WorkerMessage<u64>>>) {
    let (mut state, spawn) = Factory::pre_start(
        "factory".to_string(),
        n,
        QueuerRouting::default(),
        DefaultQueue::new(),
        None,
        settings,
        None,
        None,
    );
    assert_eq!((0..n).collect::<Vec<_>>(), spawn);
    let mut rxs = Vec::new();
    for wid in spawn {
        let (tx, rx) = tokio::sync::mpsc::unbounded_channel();
        state.add_worker(wid, ActorRef::new(ActorId::Local(wid as u64 + 1), tx), 0);
        rxs.push(rx);
    }
    (state, rxs)
}

fn dispatched_keys(rx: &mut UnboundedReceiver<WorkerMessage<u64>>) -> Vec<u64> {
    let mut keys = Vec::new();
    while let Ok(m) = rx.try_recv() {
        if let WorkerMessage::Dispatch(job) = m {
            keys.push(job.key);
        }
    }
    keys
}

#[test]
fn queuer_factory_queues_until_workers_finish() {
    let (mut state, mut rxs) = with_workers(2, DiscardSettings::Disabled);
    // workers announce themselves available once they finish a job; none has yet
    for key in 0..3u64 {
        state.dispatch(Job::new(key, key), 10).unwrap();
    }
    assert_eq!(3, state.queue_depth());
    assert_eq!(0, state.num_active_workers());

    // worker 0 reports it is done (with no job): the next queued job goes to it
    state.worker_finished_job(0, 99, 20).unwrap();
    assert_eq!(2, state.queue_depth());
    assert_eq!(vec![0], dispatched_keys(&mut rxs[0]));
    assert_eq!(1, state.num_active_workers());
}

#[test]
fn newest_jobs_are_discarded_beyond_the_limit() {
    let (mut state, _rxs) = with_workers(1, DiscardSettings::Static { limit: 2, mode: DiscardMode::Newest });
    for key in 0..5u64 {
        state.dispatch(Job::new(key, key), 10).unwrap();
    }
    assert_eq!(2, state.queue_depth());
}

#[test]
fn oldest_jobs_are_discarded_beyond_the_limit() {
    let (mut state, _rxs) = with_workers(1, DiscardSettings::Static { limit: 2, mode: DiscardMode::Oldest });
    for key in 0..5u64 {
        state.dispatch(Job::new(key, key), 10).unwrap();
    }
    assert_eq!(2, state.queue_depth());
}

#[test]
fn draining_factory_drops_new_jobs_and_stops_when_idle() {
    let (mut state, _rxs) = with_workers(1, DiscardSettings::Disabled);
    let effects = Factory::handle(&mut state, FactoryMessage::DrainRequests, 0).unwrap();
    assert!(effects.stop_factory);
    let effects = Factory::handle(&mut state, FactoryMessage::Dispatch(Job::new(1, 1)), 0).unwrap();
    assert!(effects.stop_factory);
    assert_eq!(0, state.queue_depth());
}

#[test]
fn adjusting_the_pool_spawns_and_stops_workers() {
    let (mut state, _rxs) = with_workers(2, DiscardSettings::Disabled);
    let effects = Factory::handle(&mut state, FactoryMessage::AdjustWorkerPool(4), 0).unwrap();
    assert_eq!(vec![2, 3], effects.spawn);
    assert!(effects.stop.is_empty());
    let effects = Factory::handle(&mut state, FactoryMessage::AdjustWorkerPool(1), 0).unwrap();
    assert!(effects.spawn.is_empty());
    assert_eq!(1, effects.stop.len());
}

#[test]
fn round_robin_factory_hands_jobs_to_workers() {
    let (mut state, spawn) = Factory::pre_start(
        "rr".to_string(),
        2,
        RoundRobinRouting::default(),
        DefaultQueue::<u64>::new(),
        None,
        DiscardSettings::Disabled,
        None,
        None,
    );
    let mut rxs = Vec::new();
    for wid in spawn {
        let (tx, rx) = tokio::sync::mpsc::unbounded_channel();
        state.add_worker(wid, ActorRef::new(ActorId::Local(wid as u64 + 1), tx), 0);
        rxs.push(rx);
    }
    for key in 0..4u64 {
        state.dispatch(Job::new(key, key), 0).unwrap();
    }
    assert_eq!(0, state.queue_depth());
    assert!(!Router::<u64>::is_factory_queueing(&RoundRobinRouting::default()));
    // each worker starts the first job it got, the others wait in its own queue
    assert_eq!(vec![0], dispatched_keys(&mut rxs[1]));
    assert_eq!(vec![1], dispatched_keys(&mut rxs[0]));
}

#[test]
fn default_queue_is_fifo() {
    let mut q = DefaultQueue::new();
    q.push_back(Job::new(1, 1u64));
    q.push_back(Job::new(2, 2u64));
    assert_eq!(2, q.len());
    assert_eq!(Some(1), q.pop_front().map(|j| j.key));
    assert_eq!(Some(2), q.pop_front().map(|j| j.key));
    assert!(q.pop_front().is_none());
}

struct ByKey;

impl PriorityManager<StandardPriority> for ByKey {
    fn is_discardable(&self, key: u64) -> bool {
        key != 2
    }
    fn get_priority(&self, key: u64) -> Option<StandardPriority> {
        match key {
            2 => Some(StandardPriority::Highest),
            3 => Some(StandardPriority::BestEffort),
            _ => None,
        }
    }
}

#[test]
fn priority_queue_serves_higher_priorities_first() {
    let mut q: PriorityQueue<u64, StandardPriority, ByKey, 5> = PriorityQueue::new(ByKey);
    q.push_back(Job::new(1, 1));
    q.push_back(Job::new(2, 2));
    q.push_back(Job::new(3, 3));
    q.push_back(Job::new(4, 4));
    assert_eq!(4, q.len());
    assert_eq!(Some(2), q.peek().map(|j| j.key));
    assert!(!q.is_job_discardable(2));
    assert!(q.is_job_discardable(3));
    // the oldest job of the lowest priority is discarded first
    assert_eq!(Some(3), q.discard_oldest().map(|j| j.key));
    assert_eq!(Some(2), q.pop_front().map(|j| j.key));
    assert_eq!(Some(1), q.pop_front().map(|j| j.key));
    assert_eq!(Some(4), q.pop_front().map(|j| j.key));
    assert!(q.is_empty());
}

#[test]
fn expired_jobs_are_removed_from_the_queue() {
    let mut q = DefaultQueue::new();
    q.push_back(Job::with_options(1, 1u64, JobOptions::at(0, Some(10))));
    q.push_back(Job::with_options(2, 2u64, JobOptions::at(0, None)));
    q.push_back(Job::with_options(3, 3u64, JobOptions::at(95, Some(10))));
    let expired = q.remove_expired_items(100);
    assert_eq!(vec![1], expired.iter().map(|j| j.key).collect::<Vec<_>>());
    assert_eq!(2, q.len());
    assert_eq!(Some(2), q.pop_front().map(|j| j.key));
}

fn reply_port() -> (ractor::RpcReplyPort<usize>, tokio::sync::oneshot::Receiver<usize>) {
    let (tx, rx) = tokio::sync::oneshot::channel();
    (ractor::RpcReplyPort::new(tx, None), rx)
}

#[test]
fn queries_reply_with_the_factory_state() {
    let (mut state, _rxs) = with_workers(2, DiscardSettings::Static { limit: 5, mode: DiscardMode::Newest });
    for key in 0..3u64 {
        state.dispatch(Job::new(key, key), 10).unwrap();
    }
    let (port, mut rx) = reply_port();
    let effects = Factory::handle(&mut state, FactoryMessage::GetQueueDepth(port), 11).unwrap();
    let (port, value) = effects.reply.unwrap();
    assert_eq!(3, value);
    port.send(value).unwrap();
    assert_eq!(Ok(3), rx.try_recv());

    // both workers hold no job, and two more jobs fit in the queue
    let (port, mut rx) = reply_port();
    let effects = Factory::handle(&mut state, FactoryMessage::GetAvailableCapacity(port), 11).unwrap();
    let (port, value) = effects.reply.unwrap();
    assert_eq!(4, value);
    port.send(value).unwrap();
    assert_eq!(Ok(4), rx.try_recv());

    state.worker_finished_job(0, 99, 20).unwrap();
    let (port, mut rx) = reply_port();
    let effects = Factory::handle(&mut state, FactoryMessage::GetNumActiveWorkers(port), 21).unwrap();
    let (port, value) = effects.reply.unwrap();
    assert_eq!(1, value);
    port.send(value).unwrap();
    assert_eq!(Ok(1), rx.try_recv());

    let effects = Factory::handle(&mut state, FactoryMessage::Calculate, 21).unwrap();
    assert!(effects.reply.is_none());
}

#[test]
fn available_capacity_without_a_limit_counts_free_workers() {
    let (mut state, _rxs) = with_workers(1, DiscardSettings::Disabled);
    state.worker_finished_job(0, 99, 20).unwrap();
    assert_eq!(1, state.available_capacity());
}

#[test]
fn a_job_sent_while_draining_is_handed_back() {
    let (mut state, _rxs) = with_workers(1, DiscardSettings::Disabled);
    Factory::handle(&mut state, FactoryMessage::DrainRequests, 0).unwrap();
    let (tx, mut rx) = tokio::sync::oneshot::channel();
    let mut job = Job::new(1000, 7u64);
    job.accepted = Some(ractor::RpcReplyPort::new(tx, None));
    let effects = Factory::handle(&mut state, FactoryMessage::Dispatch(job), 0).unwrap();
    assert_eq!(1, effects.discarded.len());
    let (reason, back) = effects.discarded.into_iter().next().unwrap();
    assert_eq!(DiscardReason::Shutdown, reason);
    assert_eq!(1000, back.key);
    back.reject();
    assert!(matches!(rx.try_recv(), Ok(Some((1000, 7, _)))));
}

#[test]
fn oldest_first_discarding_keeps_the_newest_jobs() {
    let (mut state, mut rxs) = with_workers(1, DiscardSettings::Static { limit: 2, mode: DiscardMode::Oldest });
    let mut shed = Vec::new();
    for key in 0..5u64 {
        shed.extend(state.dispatch(Job::new(key, key), 10).unwrap().into_iter().map(|j| j.key));
    }
    // jobs 0, 1 and 2 were shed, oldest first
    assert_eq!(vec![0, 1, 2], shed);
    state.worker_finished_job(0, 99, 20).unwrap();
    assert_eq!(vec![3], dispatched_keys(&mut rxs[0]));
    state.worker_finished_job(0, 3, 30).unwrap();
    assert_eq!(vec![4], dispatched_keys(&mut rxs[0]));
}

#[test]
fn newest_first_discarding_sheds_only_discardable_jobs() {
    let (mut state, _rxs) = with_workers(1, DiscardSettings::Static { limit: 1, mode: DiscardMode::Newest });
    state.dispatch(Job::new(1, 1), 10).unwrap();
    // the default queue lets every job be discarded: the second job is shed
    let (tx, mut rx) = tokio::sync::oneshot::channel();
    let mut job = Job::new(2, 2u64);
    job.accepted = Some(ractor::RpcReplyPort::new(tx, None));
    let effects = Factory::handle(&mut state, FactoryMessage::Dispatch(job), 11).unwrap();
    assert_eq!(1, state.queue_depth());
    assert_eq!(1, effects.discarded.len());
    let (reason, shed) = effects.discarded.into_iter().next().unwrap();
    assert_eq!(DiscardReason::Loadshed, reason);
    shed.reject();
    assert!(matches!(rx.try_recv(), Ok(Some((2, 2, _)))));
}

#[test]
fn priority_queue_sheds_lowest_priority_oldest_first() {
    let mut q: PriorityQueue<u64, StandardPriority, ByKey, 5> = PriorityQueue::new(ByKey);
    q.push_back(Job::new(3, 3));
    q.push_back(Job::new(1, 1));
    q.push_back(Job::new(5, 5));
    q.push_back(Job::new(2, 2));
    assert_eq!(Some(3), q.discard_oldest().map(|j| j.key));
    assert_eq!(Some(1), q.discard_oldest().map(|j| j.key));
    assert_eq!(Some(5), q.discard_oldest().map(|j| j.key));
    assert_eq!(Some(2), q.discard_oldest().map(|j| j.key));
    assert!(q.discard_oldest().is_none());
}

#[test]
fn a_queue_without_priorities_holds_nothing() {
    let mut q: PriorityQueue<u64, StandardPriority, ByKey, 0> = PriorityQueue::new(ByKey);
    assert_eq!(0, q.len());
    assert!(q.is_empty());
    assert!(q.peek().is_none());
    assert!(q.pop_front().is_none());
    assert!(q.discard_oldest().is_none());
    assert!(q.remove_expired_items(10).is_empty());
    assert!(!q.takes_jobs());
    assert!(DefaultQueue::<u64>::new().takes_jobs());
}

#[test]
fn calculate_reports_the_expired_jobs_as_shed() {
    let (mut state, _rxs) = with_workers(1, DiscardSettings::Disabled);
    state.dispatch(Job::with_options(1, 1, JobOptions::at(0, Some(10))), 0).unwrap();
    state.dispatch(Job::with_options(2, 2, JobOptions::at(0, None)), 0).unwrap();
    let effects = Factory::handle(&mut state, FactoryMessage::Calculate, 100).unwrap();
    let reported: Vec<(DiscardReason, u64)> = effects.discarded.iter().map(|(r, j)| (*r, j.key)).collect();
    assert_eq!(vec![(DiscardReason::Loadshed, 1)], reported);
    assert_eq!(1, state.queue_depth());
}
