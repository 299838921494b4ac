//! Error types of the framework and the conversions between them.
use vstd::prelude::*;
use vstd::string::StringExecFns;
use vstd::std_specs::convert::FromSpec;

use crate::rpc::CallResult;

verus! {

/// An error spawning an actor
#[derive(Debug)]
pub enum SpawnErr {
    /// The actor failed to start up, with the failure's description
    StartupFailed(String),
    /// The actor's startup was cancelled
    StartupCancelled,
    /// An actor with the given name is already registered
    ActorAlreadyRegistered(String),
    /// The actor was started already; an actor starts at most once
    ActorAlreadyStarted,
}

/// An error sending or receiving a message. `SendErr` carries the message which
/// could not be delivered, so that the caller can recover it.
#[derive(Debug)]
pub enum MessagingErr<T> {
    /// The message could not be delivered; the message is returned
    SendErr(T),
    /// The channel the message was sent over is closed
    ChannelClosed,
    /// The actor does not accept messages of this type
    InvalidActorType,
}

/// An error from an actor's processing (cancelled or failed)
#[derive(Debug)]
pub enum ActorErr {
    /// The actor's work was cancelled
    Cancelled,
    /// The actor failed, with the failure's description
    Failed(String),
}

/// Error types which can result from actor operations
#[derive(Debug)]
pub enum RactorErr<T> {
    /// An error occurred spawning
    Spawn(SpawnErr),
    /// An error occurred in messaging (sending/receiving)
    Messaging(MessagingErr<T>),
    /// An actor encountered an error while processing (canceled or panicked)
    Actor(ActorErr),
    /// A timeout occurred
    Timeout,
}

/// The text describing a spawn error.
pub open spec fn spawn_err_text(e: SpawnErr) -> Seq<char> {
    match e {
        SpawnErr::StartupFailed(reason) => "Actor failed to start: "@ + reason@,
        SpawnErr::StartupCancelled => "Actor startup was cancelled"@,
        SpawnErr::ActorAlreadyRegistered(name) => "Actor is already registered under the name "@
            + name@,
        SpawnErr::ActorAlreadyStarted => "Actor cannot be started more than once"@,
    }
}

/// The text describing a messaging error.
pub open spec fn messaging_err_text<T>(e: MessagingErr<T>) -> Seq<char> {
    match e {
        MessagingErr::SendErr(_) => "Failed to send message"@,
        MessagingErr::ChannelClosed => "Messaging failed because the channel is closed"@,
        MessagingErr::InvalidActorType => "Messaging failed because the actor does not accept this message type"@,
    }
}

/// The text describing an actor error.
pub open spec fn actor_err_text(e: ActorErr) -> Seq<char> {
    match e {
        ActorErr::Cancelled => "Actor operation cancelled"@,
        ActorErr::Failed(reason) => "Actor failed: "@ + reason@,
    }
}

/// The text describing a framework error: the text of the inner error, or
/// `timeout`.
pub open spec fn ractor_err_text<T>(e: RactorErr<T>) -> Seq<char> {
    match e {
        RactorErr::Spawn(s) => spawn_err_text(s),
        RactorErr::Messaging(m) => messaging_err_text(m),
        RactorErr::Actor(a) => actor_err_text(a),
        RactorErr::Timeout => "timeout"@,
    }
}

impl SpawnErr {
    /// A human readable description of the error.
    pub fn to_string(&self) -> (r: String)
        ensures
            r@ == spawn_err_text(*self),
    {
        match self {
            SpawnErr::StartupFailed(reason) => {
                let mut s = "Actor failed to start: ".to_owned();
                s.append(reason.as_str());
                s
            },
            SpawnErr::StartupCancelled => "Actor startup was cancelled".to_owned(),
            SpawnErr::ActorAlreadyRegistered(name) => {
                let mut s = "Actor is already registered under the name ".to_owned();
                s.append(name.as_str());
                s
            },
            SpawnErr::ActorAlreadyStarted => "Actor cannot be started more than once".to_owned(),
        }
    }
}

impl<T> MessagingErr<T> {
    /// A human readable description of the error.
    pub fn to_string(&self) -> (r: String)
        ensures
            r@ == messaging_err_text(*self),
    {
        match self {
            MessagingErr::SendErr(_) => "Failed to send message".to_owned(),
            MessagingErr::ChannelClosed => "Messaging failed because the channel is closed".to_owned(),
            MessagingErr::InvalidActorType => "Messaging failed because the actor does not accept this message type".to_owned(),
        }
    }

    /// Drop the message carried by a `SendErr`, keeping the kind of error.
    pub fn discard_message(self) -> (r: MessagingErr<()>)
        ensures
            match self {
                MessagingErr::SendErr(_) => r is SendErr,
                MessagingErr::ChannelClosed => r is ChannelClosed,
                MessagingErr::InvalidActorType => r is InvalidActorType,
            },
    {
        match self {
            MessagingErr::SendErr(_) => MessagingErr::SendErr(()),
            MessagingErr::ChannelClosed => MessagingErr::ChannelClosed,
            MessagingErr::InvalidActorType => MessagingErr::InvalidActorType,
        }
    }

    /// Map the message carried by a `SendErr`, keeping the other variants.
    pub fn map<U, F: FnOnce(T) -> U>(self, mapper: F) -> (r: MessagingErr<U>)
        requires
            self matches MessagingErr::SendErr(m) ==> mapper.requires((m,)),
        ensures
            match self {
                MessagingErr::SendErr(m) => r matches MessagingErr::SendErr(u) && mapper.ensures((m,), u),
                MessagingErr::ChannelClosed => r is ChannelClosed,
                MessagingErr::InvalidActorType => r is InvalidActorType,
            },
    {
        match self {
            MessagingErr::SendErr(m) => MessagingErr::SendErr(mapper(m)),
            MessagingErr::ChannelClosed => MessagingErr::ChannelClosed,
            MessagingErr::InvalidActorType => MessagingErr::InvalidActorType,
        }
    }
}

impl ActorErr {
    /// A human readable description of the error.
    pub fn to_string(&self) -> (r: String)
        ensures
            r@ == actor_err_text(*self),
    {
        match self {
            ActorErr::Cancelled => "Actor operation cancelled".to_owned(),
            ActorErr::Failed(reason) => {
                let mut s = "Actor failed: ".to_owned();
                s.append(reason.as_str());
                s
            },
        }
    }
}

impl<T> RactorErr<T> {
    /// Identify if the error has a message payload contained: true exactly for
    /// `Messaging(SendErr(_))`.
    pub fn has_message(&self) -> (r: bool)
        ensures
            r == (*self matches RactorErr::Messaging(MessagingErr::SendErr(_))),
    {
        match self {
            RactorErr::Messaging(MessagingErr::SendErr(_)) => true,
            _ => false,
        }
    }

    /// Try and extract the message payload from the contained error, consuming
    /// the error.
    pub fn try_get_message(self) -> (r: Option<T>)
        ensures
            match self {
                RactorErr::Messaging(MessagingErr::SendErr(m)) => r == Some(m),
                _ => r is None,
            },
    {
        match self {
            RactorErr::Messaging(MessagingErr::SendErr(m)) => Some(m),
            _ => None,
        }
    }

    /// Map any message embedded within the error type; the other parts of the
    /// error are kept.
    pub fn map<U, F: FnOnce(T) -> U>(self, mapper: F) -> (r: RactorErr<U>)
        requires
            self matches RactorErr::Messaging(MessagingErr::SendErr(m)) ==> mapper.requires((m,)),
        ensures
            match self {
                RactorErr::Spawn(s) => r == RactorErr::<U>::Spawn(s),
                RactorErr::Messaging(MessagingErr::SendErr(m)) =>
                    r matches RactorErr::Messaging(MessagingErr::SendErr(u)) && mapper.ensures((m,), u),
                RactorErr::Messaging(MessagingErr::ChannelClosed) =>
                    r matches RactorErr::Messaging(MessagingErr::ChannelClosed),
                RactorErr::Messaging(MessagingErr::InvalidActorType) =>
                    r matches RactorErr::Messaging(MessagingErr::InvalidActorType),
                RactorErr::Actor(a) => r == RactorErr::<U>::Actor(a),
                RactorErr::Timeout => r is Timeout,
            },
    {
        match self {
            RactorErr::Spawn(err) => RactorErr::Spawn(err),
            RactorErr::Messaging(err) => RactorErr::Messaging(err.map(mapper)),
            RactorErr::Actor(err) => RactorErr::Actor(err),
            RactorErr::Timeout => RactorErr::Timeout,
        }
    }

    /// A human readable description: the description of the inner error, or
    /// `timeout`.
    pub fn to_string(&self) -> (r: String)
        ensures
            r@ == ractor_err_text(*self),
    {
        match self {
            RactorErr::Spawn(s) => s.to_string(),
            RactorErr::Messaging(m) => m.to_string(),
            RactorErr::Actor(a) => a.to_string(),
            RactorErr::Timeout => "timeout".to_owned(),
        }
    }

    /// Convert a failed call result: a sender error becomes a closed channel, a
    /// timeout a timeout. A successful result is no error, so it is not accepted.
    pub fn from_call_result<R>(value: CallResult<R>) -> (r: Self)
        requires
            !(value is Success),
        ensures
            value is SenderError ==> r matches RactorErr::Messaging(MessagingErr::ChannelClosed),
            value is Timeout ==> r is Timeout,
    {
        match value {
            CallResult::SenderError => RactorErr::Messaging(MessagingErr::ChannelClosed),
            _ => RactorErr::Timeout,
        }
    }
}

impl<T> From<SpawnErr> for RactorErr<T> {
    fn from(value: SpawnErr) -> (r: Self) {
        RactorErr::Spawn(value)
    }
}

impl<T> vstd::std_specs::convert::FromSpecImpl<SpawnErr> for RactorErr<T> {
    open spec fn obeys_from_spec() -> bool {
        true
    }

    open spec fn from_spec(value: SpawnErr) -> Self {
        RactorErr::Spawn(value)
    }
}

impl<T> From<MessagingErr<T>> for RactorErr<T> {
    fn from(value: MessagingErr<T>) -> (r: Self) {
        RactorErr::Messaging(value)
    }
}

impl<T> vstd::std_specs::convert::FromSpecImpl<MessagingErr<T>> for RactorErr<T> {
    open spec fn obeys_from_spec() -> bool {
        true
    }

    open spec fn from_spec(value: MessagingErr<T>) -> Self {
        RactorErr::Messaging(value)
    }
}

impl<T> From<ActorErr> for RactorErr<T> {
    fn from(value: ActorErr) -> (r: Self) {
        RactorErr::Actor(value)
    }
}

impl<T> vstd::std_specs::convert::FromSpecImpl<ActorErr> for RactorErr<T> {
    open spec fn obeys_from_spec() -> bool {
        true
    }

    open spec fn from_spec(value: ActorErr) -> Self {
        RactorErr::Actor(value)
    }
}

/// Converting an error into `RactorErr` keeps its description.
pub proof fn lemma_conversion_keeps_text<T>(s: SpawnErr, m: MessagingErr<T>, a: ActorErr)
    ensures
        ractor_err_text(<RactorErr<T> as FromSpec<SpawnErr>>::from_spec(s)) == spawn_err_text(s),
        ractor_err_text(<RactorErr<T> as FromSpec<MessagingErr<T>>>::from_spec(m))
            == messaging_err_text(m),
        ractor_err_text(<RactorErr<T> as FromSpec<ActorErr>>::from_spec(a)) == actor_err_text(a),
{
}

} // verus!
