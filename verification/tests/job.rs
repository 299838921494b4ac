use ractor::factory::job::{Job, JobOptions};
use ractor::factory::FactoryMessage;
use ractor::message::{BoxedDowncastErr, Message, SerializedMessage};
use ractor::RpcReplyPort;

#[derive(Debug)]
enum TestMessage {
    #[allow(dead_code)]
    A(String),
    #[allow(dead_code)]
    B(String, RpcReplyPort<u128>),
}

fn reply_port<T>() -> RpcReplyPort<T> {
    let (tx, _rx) = tokio::sync::oneshot::channel();
    RpcReplyPort::new(tx, None)
}

impl Message for TestMessage {
    fn serializable() -> bool {
        true
    }
    fn serialize(self) -> Result<SerializedMessage, BoxedDowncastErr> {
        match self {
            Self::A(args) => Ok(SerializedMessage::Cast {
                variant: "A".to_string(),
                args: args.into_bytes(),
                metadata: None,
            }),
            Self::B(args, _reply) => Ok(SerializedMessage::Call {
                variant: "B".to_string(),
                args: args.into_bytes(),
                reply: reply_port(),
                metadata: None,
            }),
        }
    }
    fn deserialize(bytes: SerializedMessage) -> Result<Self, BoxedDowncastErr> {
        match bytes {
            SerializedMessage::Cast { variant, args, .. } => match variant.as_str() {
                "A" => Ok(Self::A(String::from_utf8(args).unwrap())),
                _ => Err(BoxedDowncastErr),
            },
            SerializedMessage::Call { variant, args, .. } => match variant.as_str() {
                "B" => Ok(Self::B(String::from_utf8(args).unwrap(), reply_port())),
                _ => Err(BoxedDowncastErr),
            },
            _ => Err(BoxedDowncastErr),
        }
    }
}

type TheJob = Job<TestMessage>;

#[test]
fn test_job_serialization() {
    // Check Cast variant
    let job_a = TheJob {
        key: 123,
        msg: TestMessage::A("Hello".to_string()),
        options: JobOptions::default(),
        accepted: None,
    };
    let expected_a = TheJob {
        key: 123,
        msg: TestMessage::A("Hello".to_string()),
        options: job_a.options.clone(),
        accepted: None,
    };

    let serialized_a = job_a.serialize().expect("Failed to serialize job A");
    let deserialized_a = TheJob::deserialize(serialized_a).expect("Failed to deserialize job A");

    assert_eq!(expected_a.key, deserialized_a.key);
    assert_eq!(
        expected_a.options.submit_time,
        deserialized_a.options.submit_time
    );
    assert_eq!(expected_a.options.ttl, deserialized_a.options.ttl);
    if let TestMessage::A(the_msg) = deserialized_a.msg {
        assert_eq!("Hello".to_string(), the_msg);
    } else {
        panic!("Failed to deserialize the message payload");
    }

    // Check RPC variant
    let job_b = TheJob {
        key: 456,
        msg: TestMessage::B("Hi".to_string(), reply_port()),
        options: JobOptions::new(Some(1_000_000_000)),
        accepted: None,
    };
    let expected_b = TheJob {
        key: 456,
        msg: TestMessage::B("Hi".to_string(), reply_port()),
        options: job_b.options.clone(),
        accepted: None,
    };
    let serialized_b = job_b.serialize().expect("Failed to serialize job B");
    let deserialized_b = TheJob::deserialize(serialized_b).expect("Failed to deserialize job A");

    assert_eq!(expected_b.key, deserialized_b.key);
    assert_eq!(
        expected_b.options.submit_time,
        deserialized_b.options.submit_time
    );
    assert_eq!(expected_b.options.ttl, deserialized_b.options.ttl);
    if let TestMessage::B(the_msg, _) = deserialized_b.msg {
        assert_eq!("Hi".to_string(), the_msg);
    } else {
        panic!("Failed to deserialize the message payload");
    }
}

#[test]
fn test_factory_message_serialization() {
    let job_a = TheJob {
        key: 123,
        msg: TestMessage::A("Hello".to_string()),
        options: JobOptions::default(),
        accepted: None,
    };
    let expected_a = TheJob {
        key: 123,
        msg: TestMessage::A("Hello".to_string()),
        options: job_a.options.clone(),
        accepted: None,
    };

    let msg = FactoryMessage::Dispatch(job_a);
    let serialized_a = msg.serialize().expect("Failed to serialize");

    let serialized_a_prime = expected_a.serialize().expect("Failed to serialize");

    if let (
        SerializedMessage::Cast {
            variant: variant1,
            args: args1,
            metadata: metadata1,
        },
        SerializedMessage::Cast {
            variant: variant2,
            args: args2,
            metadata: metadata2,
        },
    ) = (serialized_a, serialized_a_prime)
    {
        assert_eq!(variant1, variant2);
        assert_eq!(args1, args2);
        assert_eq!(metadata1, metadata2);
    } else {
        panic!("Non-cast serialization")
    }
}

#[test]
fn job_metadata_layout() {
    let options = JobOptions::at(0x0102030405060708, Some(9));
    let job = Job::with_options(0x1122334455667788, 5u64, options);
    let (meta, msg) = job.serialize_meta();
    assert_eq!(5, msg);
    assert_eq!(
        vec![1, 2, 3, 4, 5, 6, 7, 8, 0, 0, 0, 0, 0, 0, 0, 9, 0x11, 0x22, 0x33, 0x44, 0x55, 0x66, 0x77, 0x88],
        meta
    );
}

#[test]
fn options_bytes_roundtrip() {
    let options = JobOptions::at(77, Some(5));
    let back = JobOptions::from_bytes_at(options.into_bytes(), 1000);
    assert_eq!(77, back.submit_time);
    assert_eq!(Some(5), back.ttl);
    assert_eq!(1000, back.factory_time);
    assert_eq!(1000, back.worker_time);

    // a zero time-to-live reads back as none
    let zero = JobOptions::at(77, Some(0));
    assert_eq!(None, JobOptions::from_bytes_at(zero.into_bytes(), 1).ttl);

    // a wrong length gives fresh options
    let fresh = JobOptions::from_bytes_at(vec![1, 2, 3], 42);
    assert_eq!(JobOptions::at(42, None), fresh);
}

#[test]
fn deserialize_without_metadata_fails() {
    let bytes = SerializedMessage::Cast {
        variant: "A".to_string(),
        args: vec![],
        metadata: None,
    };
    assert!(TheJob::deserialize(bytes).is_err());
    assert!(TheJob::deserialize(SerializedMessage::CallReply(1, vec![])).is_err());
}

#[test]
fn job_expiry() {
    let options = JobOptions::at(100, Some(10));
    assert!(!options.is_expired_at(110));
    assert!(options.is_expired_at(111));
    assert!(!JobOptions::at(100, None).is_expired_at(u64::MAX));
    let job = Job::with_options(1, (), options);
    assert!(job.is_expired_at(200));
}

#[test]
fn non_dispatch_factory_messages_do_not_serialize() {
    let msg: FactoryMessage<TestMessage> = FactoryMessage::Calculate;
    assert!(msg.serialize().is_err());
}
