use ractor::factory::discard::{DiscardMode, WorkerDiscardSettings};
use ractor::factory::job::{Job, JobOptions};
use ractor::factory::worker::{WorkerMessage, WorkerProperties};
use ractor::{ActorId, ActorRef, RpcReplyPort};
use tokio::sync::mpsc::UnboundedReceiver;

fn worker(settings: WorkerDiscardSettings) -> (WorkerProperties<u64>, UnboundedReceiver<WorkerMessage<u64>>) {
    let (tx, rx) = tokio::sync::mpsc::unbounded_channel();
    let w = WorkerProperties::new("factory".to_string(), 0, ActorRef::new(ActorId::Local(1), tx), settings, None, None, 0);
    (w, rx)
}

fn dispatched(rx: &mut UnboundedReceiver<WorkerMessage<u64>>) -> Vec<u64> {
    let mut keys = Vec::new();
    while let Ok(m) = rx.try_recv() {
        if let WorkerMessage::Dispatch(job) = m {
            keys.push(job.key);
        }
    }
    keys
}

fn with_port(key: u64) -> (Job<u64>, tokio::sync::oneshot::Receiver<Option<(u64, u64, JobOptions)>>) {
    let (tx, rx) = tokio::sync::oneshot::channel();
    let mut job = Job::new(key, key);
    job.accepted = Some(RpcReplyPort::new(tx, None));
    (job, rx)
}

#[test]
fn limit_zero_newest_refuses_jobs_for_a_busy_worker() {
    let (mut w, mut rx) = worker(WorkerDiscardSettings::Static { limit: 0, mode: DiscardMode::Newest });
    // a free worker takes the job at once
    w.enqueue_job(Job::new(1, 1), 0).ok().unwrap();
    assert_eq!(vec![1], dispatched(&mut rx));
    // a busy worker with a limit of zero queues nothing: the job is handed back
    let (job, mut accepted) = with_port(2);
    w.enqueue_job(job, 0).ok().unwrap();
    match accepted.try_recv() {
        Ok(Some((key, msg, _))) => assert_eq!((2, 2), (key, msg)),
        other => panic!("expected the job back, got {:?}", other.map(|o| o.map(|(k, _, _)| k))),
    }
    // finishing the first job starts nothing more
    assert!(w.worker_complete(1, 5).ok().unwrap().is_some());
    assert!(dispatched(&mut rx).is_empty());
    assert!(w.is_available());
}

#[test]
fn limit_zero_oldest_sheds_the_queue_to_nothing() {
    let (mut w, mut rx) = worker(WorkerDiscardSettings::Static { limit: 0, mode: DiscardMode::Oldest });
    w.enqueue_job(Job::new(1, 1), 0).ok().unwrap();
    assert_eq!(vec![1], dispatched(&mut rx));
    let (job, mut accepted) = with_port(2);
    w.enqueue_job(job, 0).ok().unwrap();
    // the job was accepted, then shed with the rest of the queue
    assert!(matches!(accepted.try_recv(), Ok(None)));
    w.worker_complete(1, 5).ok().unwrap();
    assert!(dispatched(&mut rx).is_empty());
    assert!(w.is_available());
}

#[test]
fn limit_one_newest_queues_one_job() {
    let (mut w, mut rx) = worker(WorkerDiscardSettings::Static { limit: 1, mode: DiscardMode::Newest });
    w.enqueue_job(Job::new(1, 1), 0).ok().unwrap();
    w.enqueue_job(Job::new(2, 2), 0).ok().unwrap();
    let (job, mut accepted) = with_port(3);
    w.enqueue_job(job, 0).ok().unwrap();
    assert!(matches!(accepted.try_recv(), Ok(Some(_))));
    assert_eq!(vec![1], dispatched(&mut rx));
    w.worker_complete(1, 5).ok().unwrap();
    assert_eq!(vec![2], dispatched(&mut rx));
}
