use ractor::rpc::CallResult;
use ractor::{ActorErr, MessagingErr, RactorErr, SpawnErr};

#[test]
fn test_error_conversions() {
    let spawn = SpawnErr::StartupCancelled;
    let ractor_err = RactorErr::<()>::from(SpawnErr::StartupCancelled);
    assert_eq!(spawn.to_string(), ractor_err.to_string());

    let messaging = MessagingErr::<()>::InvalidActorType;
    let ractor_err = RactorErr::<()>::from(MessagingErr::InvalidActorType);
    assert_eq!(messaging.to_string(), ractor_err.to_string());

    let actor = ActorErr::Cancelled;
    let ractor_err = RactorErr::<()>::from(ActorErr::Cancelled);
    assert_eq!(actor.to_string(), ractor_err.to_string());

    let call_result = CallResult::<()>::Timeout;
    let other = format!("{:?}", RactorErr::<()>::from_call_result(call_result));
    assert_eq!("Timeout".to_string(), other);

    let call_result = CallResult::<()>::SenderError;
    let other = RactorErr::<()>::from_call_result(call_result).to_string();
    assert_eq!(
        RactorErr::<()>::from(MessagingErr::ChannelClosed).to_string(),
        other
    );
}

#[test]
fn error_texts() {
    assert_eq!("Actor startup was cancelled", SpawnErr::StartupCancelled.to_string());
    assert_eq!(
        "Actor failed to start: boom",
        SpawnErr::StartupFailed("boom".to_string()).to_string()
    );
    assert_eq!(
        "Actor is already registered under the name a",
        SpawnErr::ActorAlreadyRegistered("a".to_string()).to_string()
    );
    assert_eq!("Failed to send message", MessagingErr::SendErr(3u8).to_string());
    assert_eq!(
        "Messaging failed because the channel is closed",
        MessagingErr::<()>::ChannelClosed.to_string()
    );
    assert_eq!("Actor operation cancelled", ActorErr::Cancelled.to_string());
    assert_eq!("Actor failed: x", ActorErr::Failed("x".to_string()).to_string());
    assert_eq!("timeout", RactorErr::<()>::Timeout.to_string());
}

#[test]
fn error_message_extraction() {
    let err = RactorErr::from(MessagingErr::SendErr(7u32));
    assert!(err.has_message());
    assert_eq!(Some(7), err.try_get_message());

    let err = RactorErr::<u32>::from(MessagingErr::InvalidActorType);
    assert!(!err.has_message());
    assert_eq!(None, err.try_get_message());

    let mapped = RactorErr::from(MessagingErr::SendErr(7u32)).map(|x| x * 2);
    assert_eq!(Some(14), mapped.try_get_message());

    let discarded = MessagingErr::SendErr(5u8).discard_message();
    assert!(matches!(discarded, MessagingErr::SendErr(())));
}
