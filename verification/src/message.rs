//! The message trait actors exchange, and the serialized form of messages sent
//! to actors on other nodes.
use vstd::prelude::*;

use crate::port::RpcReplyPort;

verus! {

/// An error converting a boxed or serialized message to a strong type
#[derive(Debug, PartialEq, Eq, Structural)]
pub struct BoxedDowncastErr;

impl BoxedDowncastErr {
    /// A human readable description of the error.
    pub fn to_string(&self) -> (r: String)
        ensures
            r@ == "An error occurred handling a boxed message"@,
    {
        "An error occurred handling a boxed message".to_owned()
    }
}

/// A serialized call or cast message
#[derive(Debug)]
pub enum SerializedMessage {
    /// A cast (one-way) with the serialized payload
    Cast {
        /// The name of the variant. Helpful for enum serialization
        variant: String,
        /// The payload of data
        args: Vec<u8>,
        /// Additional (optional) metadata
        metadata: Option<Vec<u8>>,
    },
    /// A call (waiting on a reply) with the serialized arguments and reply channel
    Call {
        /// The name of the variant. Helpful for enum serialization
        variant: String,
        /// The argument payload data
        args: Vec<u8>,
        /// The binary reply channel
        reply: RpcReplyPort<Vec<u8>>,
        /// Additional (optional) metadata
        metadata: Option<Vec<u8>>,
    },
    /// A serialized reply from a call operation: (message tag, reply data)
    CallReply(u64, Vec<u8>),
}

/// The message type of an actor. Messages which can travel to other nodes
/// override the serialization methods; by default a message is local only.
pub trait Message: Sized {
    /// Determines if this type is serializable; by default it is not
    fn serializable() -> (r: bool)
        default_ensures
            !r,
    {
        false
    }

    /// Serializes this message (if supported); by default it is not, and
    /// serializing fails
    fn serialize(self) -> (r: Result<SerializedMessage, BoxedDowncastErr>)
        default_ensures
            r is Err,
    {
        Err(BoxedDowncastErr)
    }

    /// Deserialize binary data to this message type; by default this fails
    fn deserialize(bytes: SerializedMessage) -> (r: Result<Self, BoxedDowncastErr>)
        default_ensures
            r is Err,
    {
        Err(BoxedDowncastErr)
    }
}

impl Message for () {
}

impl Message for u64 {
}

} // verus!
