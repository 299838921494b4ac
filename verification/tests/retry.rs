use ractor::factory::job::{retry_dispatch, Job, JobOptions, MessageRetryStrategy, RetriableMessage};
use ractor::factory::FactoryMessage;

fn captured(strategy: MessageRetryStrategy) -> RetriableMessage<u64> {
    let job = Job::with_options(5, 50u64, JobOptions::at(100, Some(9)));
    RetriableMessage::from_job(job, strategy).msg
}

#[test]
fn a_retry_keeps_the_key_and_options_and_uses_one_retry() {
    let m = captured(MessageRetryStrategy::Count(3));
    match retry_dispatch(m) {
        Some(FactoryMessage::Dispatch(job)) => {
            assert_eq!(5, job.key);
            assert_eq!(JobOptions::at(100, Some(9)), job.options);
            assert!(job.accepted.is_none());
            assert_eq!(Some(50), job.msg.message);
            assert!(matches!(job.msg.strategy, MessageRetryStrategy::Count(2)));
        }
        _ => panic!("expected a retry"),
    }
}

#[test]
fn the_last_retry_leaves_no_retries() {
    match retry_dispatch(captured(MessageRetryStrategy::Count(1))) {
        Some(FactoryMessage::Dispatch(job)) => assert!(matches!(job.msg.strategy, MessageRetryStrategy::NoRetry)),
        _ => panic!("expected a retry"),
    }
    match retry_dispatch(captured(MessageRetryStrategy::RetryForever)) {
        Some(FactoryMessage::Dispatch(job)) => assert!(matches!(job.msg.strategy, MessageRetryStrategy::RetryForever)),
        _ => panic!("expected a retry"),
    }
}

#[test]
fn no_retry_without_retries_a_message_or_a_retry_state() {
    assert!(retry_dispatch(captured(MessageRetryStrategy::Count(0))).is_none());
    assert!(retry_dispatch(captured(MessageRetryStrategy::NoRetry)).is_none());
    let mut m = captured(MessageRetryStrategy::RetryForever);
    m.completed();
    assert!(m.message.is_none());
    assert!(retry_dispatch(m).is_none());
    // never captured: no options to retry with
    assert!(retry_dispatch(RetriableMessage::new(1, 1u64, MessageRetryStrategy::RetryForever)).is_none());
}

#[test]
fn a_job_becomes_a_retriable_job_with_its_retry_state() {
    let (tx, _rx) = tokio::sync::oneshot::channel();
    let mut job = Job::with_options(8, 80u64, JobOptions::at(3, None));
    job.accepted = Some(ractor::RpcReplyPort::new(tx, None));
    let job = RetriableMessage::from_job(job, MessageRetryStrategy::Count(4));
    assert_eq!(8, job.key);
    assert!(job.accepted.is_none());
    assert_eq!(JobOptions::at(3, None), job.options);
    assert_eq!(8, job.msg.key);
    assert_eq!(Some(80), job.msg.message);
    assert_eq!(Some(JobOptions::at(3, None)), job.msg.retry_options);
    assert!(matches!(job.msg.strategy, MessageRetryStrategy::Count(4)));
}

#[test]
fn a_count_of_two_retries_twice() {
    let m = captured(MessageRetryStrategy::Count(2));
    let m = match retry_dispatch(m) {
        Some(FactoryMessage::Dispatch(job)) => job.msg,
        _ => panic!("first retry expected"),
    };
    let m = match retry_dispatch(m) {
        Some(FactoryMessage::Dispatch(job)) => job.msg,
        _ => panic!("second retry expected"),
    };
    assert!(matches!(m.strategy, MessageRetryStrategy::NoRetry));
    assert!(retry_dispatch(m).is_none());
}
