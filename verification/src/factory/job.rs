//! Jobs sent to a factory: a routing key, a message and timing options, and
//! the wire format of a job's metadata.
use vstd::prelude::*;

use crate::concurrency::{now_nanos, spec_clock_reading};
use crate::message::{BoxedDowncastErr, Message, SerializedMessage};
use crate::port::RpcReplyPort;
use crate::factory::FactoryMessage;

verus! {

/// The eight big-endian bytes of `x`.
pub open spec fn spec_u64_to_be_bytes(x: u64) -> Seq<u8> {
    seq![
        ((x >> 56u64) & 0xffu64) as u8,
        ((x >> 48u64) & 0xffu64) as u8,
        ((x >> 40u64) & 0xffu64) as u8,
        ((x >> 32u64) & 0xffu64) as u8,
        ((x >> 24u64) & 0xffu64) as u8,
        ((x >> 16u64) & 0xffu64) as u8,
        ((x >> 8u64) & 0xffu64) as u8,
        (x & 0xffu64) as u8,
    ]
}

/// The value of eight big-endian bytes.
pub open spec fn spec_u64_from_be_bytes(s: Seq<u8>) -> u64
    recommends
        s.len() >= 8,
{
    ((s[0] as u64) << 56u64) | ((s[1] as u64) << 48u64) | ((s[2] as u64) << 40u64) | ((
    s[3] as u64) << 32u64) | ((s[4] as u64) << 24u64) | ((s[5] as u64) << 16u64) | ((
    s[6] as u64) << 8u64) | (s[7] as u64)
}

/// Decoding the encoding of a value gives the value back.
pub proof fn lemma_u64_be_roundtrip(x: u64)
    ensures
        spec_u64_from_be_bytes(spec_u64_to_be_bytes(x)) == x,
{
    let s = spec_u64_to_be_bytes(x);
    let b0 = s[0];
    let b1 = s[1];
    let b2 = s[2];
    let b3 = s[3];
    let b4 = s[4];
    let b5 = s[5];
    let b6 = s[6];
    let b7 = s[7];
    assert(b0 == ((x >> 56u64) & 0xffu64) as u8);
    assert(b7 == (x & 0xffu64) as u8);
    assert(((b0 as u64) << 56u64) | ((b1 as u64) << 48u64) | ((b2 as u64) << 40u64) | ((
    b3 as u64) << 32u64) | ((b4 as u64) << 24u64) | ((b5 as u64) << 16u64) | ((b6 as u64)
        << 8u64) | (b7 as u64) == x) by (bit_vector)
        requires
            b0 == ((x >> 56u64) & 0xffu64) as u8,
            b1 == ((x >> 48u64) & 0xffu64) as u8,
            b2 == ((x >> 40u64) & 0xffu64) as u8,
            b3 == ((x >> 32u64) & 0xffu64) as u8,
            b4 == ((x >> 24u64) & 0xffu64) as u8,
            b5 == ((x >> 16u64) & 0xffu64) as u8,
            b6 == ((x >> 8u64) & 0xffu64) as u8,
            b7 == (x & 0xffu64) as u8,
    ;
}

/// The big-endian bytes of `x`.
pub fn u64_to_be_bytes(x: u64) -> (r: Vec<u8>)
    ensures
        r@ == spec_u64_to_be_bytes(x),
{
    let r = vec![
        ((x >> 56u64) & 0xffu64) as u8,
        ((x >> 48u64) & 0xffu64) as u8,
        ((x >> 40u64) & 0xffu64) as u8,
        ((x >> 32u64) & 0xffu64) as u8,
        ((x >> 24u64) & 0xffu64) as u8,
        ((x >> 16u64) & 0xffu64) as u8,
        ((x >> 8u64) & 0xffu64) as u8,
        (x & 0xffu64) as u8,
    ];
    assert(r@ =~= spec_u64_to_be_bytes(x));
    r
}

/// The value of the eight big-endian bytes starting at `at`.
pub fn u64_from_be_bytes(s: &[u8], at: usize) -> (r: u64)
    requires
        at + 8 <= s@.len(),
    ensures
        r == spec_u64_from_be_bytes(s@.subrange(at as int, at + 8)),
{
    let ghost sub = s@.subrange(at as int, at + 8);
    assert(sub[0] == s@[at as int]);
    assert(sub[7] == s@[at + 7]);
    ((s[at] as u64) << 56u64) | ((s[at + 1] as u64) << 48u64) | ((s[at + 2] as u64) << 40u64) | ((
    s[at + 3] as u64) << 32u64) | ((s[at + 4] as u64) << 24u64) | ((s[at + 5] as u64)
        << 16u64) | ((s[at + 6] as u64) << 8u64) | (s[at + 7] as u64)
}

/// Options of a job, mainly timing: all instants are nanoseconds since the Unix
/// epoch, the time-to-live is in nanoseconds.
#[derive(Clone, Copy, Debug, PartialEq, Eq, Structural)]
pub struct JobOptions {
    /// Time the job was submitted by the client
    pub submit_time: u64,
    /// Time the job was received by the factory
    pub factory_time: u64,
    /// Time the job was sent to a worker
    pub worker_time: u64,
    /// Time-to-live for the job, the longest it may wait in a queue
    pub ttl: Option<u64>,
}

impl JobOptions {
    /// Whether a job with these options has expired at instant `now`: it has a
    /// time-to-live and more than that has passed since it was submitted.
    pub open spec fn spec_expired_at(self, now: u64) -> bool {
        match self.ttl {
            Some(ttl) => now >= self.submit_time && now - self.submit_time > ttl,
            None => false,
        }
    }

    /// Options stamped at instant `now`, with the given time-to-live.
    pub fn at(now: u64, ttl: Option<u64>) -> (r: Self)
        ensures
            r == (JobOptions { submit_time: now, factory_time: now, worker_time: now, ttl }),
    {
        JobOptions { submit_time: now, factory_time: now, worker_time: now, ttl }
    }

    /// Create options stamped with the current time, optionally with a
    /// time-to-live: the longest the job may remain in the factory's (or
    /// worker's) queue before it expires and is discarded.
    pub fn new(ttl: Option<u64>) -> (r: Self)
        ensures
            r.ttl == ttl,
            r.factory_time == r.submit_time,
            r.worker_time == r.submit_time,
            spec_clock_reading(r.submit_time),
    {
        JobOptions::at(now_nanos(), ttl)
    }

    /// The time-to-live of the job
    pub fn ttl(&self) -> (r: Option<u64>)
        ensures
            r == self.ttl,
    {
        self.ttl
    }

    /// Set the time-to-live of the job
    pub fn set_ttl(&mut self, ttl: Option<u64>)
        ensures
            *final(self) == (JobOptions { ttl, ..*old(self) }),
    {
        self.ttl = ttl;
    }

    /// Time the job was submitted
    pub fn submit_time(&self) -> (r: u64)
        ensures
            r == self.submit_time,
    {
        self.submit_time
    }

    /// Time the job was dispatched to a worker
    pub fn worker_time(&self) -> (r: u64)
        ensures
            r == self.worker_time,
    {
        self.worker_time
    }

    /// Time the job was received by the factory
    pub fn factory_time(&self) -> (r: u64)
        ensures
            r == self.factory_time,
    {
        self.factory_time
    }

    /// Whether the options have expired at instant `now`
    pub fn is_expired_at(&self, now: u64) -> (r: bool)
        ensures
            r == self.spec_expired_at(now),
    {
        match self.ttl {
            Some(ttl) => now >= self.submit_time && now - self.submit_time > ttl,
            None => false,
        }
    }

    /// The sixteen-byte wire form: the submit time, then the time-to-live (0
    /// when there is none), each big-endian.
    pub open spec fn spec_to_bytes(self) -> Seq<u8> {
        spec_u64_to_be_bytes(self.submit_time) + spec_u64_to_be_bytes(
            match self.ttl {
                Some(t) => t,
                None => 0,
            },
        )
    }

    /// The options read from their wire form at instant `now`: sixteen bytes
    /// give the submit time and a time-to-live (0 meaning none); any other
    /// length gives fresh options without a time-to-live. The factory and
    /// worker times are `now`.
    pub open spec fn spec_from_bytes(s: Seq<u8>, now: u64) -> JobOptions {
        if s.len() != 16 {
            JobOptions { submit_time: now, factory_time: now, worker_time: now, ttl: None }
        } else {
            let t = spec_u64_from_be_bytes(s.subrange(8, 16));
            JobOptions {
                submit_time: spec_u64_from_be_bytes(s.subrange(0, 8)),
                factory_time: now,
                worker_time: now,
                ttl: if t > 0 {
                    Some(t)
                } else {
                    None
                },
            }
        }
    }

    /// Encode the options in their sixteen-byte wire form
    pub fn into_bytes(self) -> (r: Vec<u8>)
        ensures
            r@ == self.spec_to_bytes(),
            r@.len() == 16,
    {
        let ttl = match self.ttl {
            Some(t) => t,
            None => 0,
        };
        let mut data = u64_to_be_bytes(self.submit_time);
        let mut tail = u64_to_be_bytes(ttl);
        data.append(&mut tail);
        data
    }

    /// Decode options from their wire form, taking the current time as the
    /// factory and worker times
    pub fn from_bytes(data: Vec<u8>) -> (r: Self)
        ensures
            exists|now: u64| spec_clock_reading(now) && r == Self::spec_from_bytes(data@, now),
    {
        let now = now_nanos();
        Self::from_bytes_at(data, now)
    }

    /// Decode options from their wire form, taking `now` as the factory and
    /// worker times
    pub fn from_bytes_at(data: Vec<u8>, now: u64) -> (r: Self)
        ensures
            r == Self::spec_from_bytes(data@, now),
    {
        if data.len() != 16 {
            JobOptions::at(now, None)
        } else {
            let submit_time = u64_from_be_bytes(data.as_slice(), 0);
            let ttl = u64_from_be_bytes(data.as_slice(), 8);
            JobOptions {
                submit_time,
                factory_time: now,
                worker_time: now,
                ttl: if ttl > 0 {
                    Some(ttl)
                } else {
                    None
                },
            }
        }
    }
}

/// Options survive their wire form: the submit time is kept, and so is the
/// time-to-live unless it is zero (the wire form cannot tell a zero
/// time-to-live from none).
pub proof fn lemma_options_bytes_roundtrip(o: JobOptions, now: u64)
    requires
        o.ttl != Some(0u64),
    ensures
        JobOptions::spec_from_bytes(o.spec_to_bytes(), now).submit_time == o.submit_time,
        JobOptions::spec_from_bytes(o.spec_to_bytes(), now).ttl == o.ttl,
{
    let t = match o.ttl {
        Some(t) => t,
        None => 0u64,
    };
    let s = o.spec_to_bytes();
    assert(s.subrange(0, 8) =~= spec_u64_to_be_bytes(o.submit_time));
    assert(s.subrange(8, 16) =~= spec_u64_to_be_bytes(t));
    lemma_u64_be_roundtrip(o.submit_time);
    lemma_u64_be_roundtrip(t);
}

impl Default for JobOptions {
    fn default() -> (r: Self)
        ensures
            r.ttl is None,
            r.factory_time == r.submit_time,
            r.worker_time == r.submit_time,
    {
        JobOptions::new(None)
    }
}

/// A job sent to a factory. Depending on the factory's routing, the key
/// decides which worker receives the job.
#[verifier::reject_recursive_types(TMsg)]
pub struct Job<TMsg> {
    /// The key of the job
    pub key: u64,
    /// The message of the job
    pub msg: TMsg,
    /// The job's options, mainly timing information
    pub options: JobOptions,
    /// If provided, the factory reports over this port whether it accepted the
    /// job (`None`) or shed it, in which case the job's key, message and options
    /// are handed back (`Some`).
    pub accepted: Option<RpcReplyPort<Option<(u64, TMsg, JobOptions)>>>,
}

impl<TMsg> Job<TMsg> {
    /// A job with fresh options, without an acceptance port
    pub fn new(key: u64, msg: TMsg) -> (r: Self)
        ensures
            r.key == key,
            r.msg == msg,
            r.options.ttl is None,
            r.accepted is None,
            spec_clock_reading(r.options.submit_time),
            r.options.factory_time == r.options.submit_time,
            r.options.worker_time == r.options.submit_time,
    {
        Job { key, msg, options: JobOptions::new(None), accepted: None }
    }

    /// A job with the given options, without an acceptance port
    pub fn with_options(key: u64, msg: TMsg, options: JobOptions) -> (r: Self)
        ensures
            r.key == key,
            r.msg == msg,
            r.options == options,
            r.accepted is None,
    {
        Job { key, msg, options, accepted: None }
    }

    /// Whether the job has expired at instant `now`
    pub fn is_expired_at(&self, now: u64) -> (r: bool)
        ensures
            r == self.options.spec_expired_at(now),
    {
        self.options.is_expired_at(now)
    }

    /// Whether the job has expired by now. Expiration only takes effect before
    /// the job starts executing on a worker.
    pub fn is_expired(&self) -> (r: bool)
        ensures
            exists|now: u64| spec_clock_reading(now) && r == self.options.spec_expired_at(now),
    {
        self.is_expired_at(now_nanos())
    }

    /// Record the time the factory received the job
    pub fn set_factory_time(&mut self, now: u64)
        ensures
            final(self).key == old(self).key,
            final(self).msg == old(self).msg,
            final(self).accepted == old(self).accepted,
            final(self).options == (JobOptions { factory_time: now, ..old(self).options }),
    {
        self.options.factory_time = now;
    }

    /// Record the time a worker was sent the job
    pub fn set_worker_time(&mut self, now: u64)
        ensures
            final(self).key == old(self).key,
            final(self).msg == old(self).msg,
            final(self).accepted == old(self).accepted,
            final(self).options == (JobOptions { worker_time: now, ..old(self).options }),
    {
        self.options.worker_time = now;
    }

    /// Accept the job, telling the submitter (if it asked) that the job was
    /// taken in. The acceptance port is used up.
    pub fn accept(&mut self)
        ensures
            final(self).key == old(self).key,
            final(self).msg == old(self).msg,
            final(self).options == old(self).options,
            final(self).accepted is None,
    {
        if let Some(port) = self.accepted.take() {
            let _ = port.send(None);
        }
    }

    /// Reject the job, handing its key, message and options back to the
    /// submitter (if it asked).
    pub fn reject(self) {
        let Job { key, msg, options, accepted } = self;
        if let Some(port) = accepted {
            let _ = port.send(Some((key, msg, options)));
        }
    }

    /// The metadata of a job on the wire: the options' sixteen bytes, then the
    /// key's eight big-endian bytes.
    pub open spec fn spec_meta(key: u64, options: JobOptions) -> Seq<u8> {
        options.spec_to_bytes() + spec_u64_to_be_bytes(key)
    }

    /// Split the job into its wire metadata and its message
    pub fn serialize_meta(self) -> (r: (Vec<u8>, TMsg))
        ensures
            r.0@ == Self::spec_meta(self.key, self.options),
            r.1 == self.msg,
    {
        let mut meta = self.options.into_bytes();
        let mut key_bytes = u64_to_be_bytes(self.key);
        meta.append(&mut key_bytes);
        (meta, self.msg)
    }
}

/// The key and options read from wire metadata at instant `now`.
pub open spec fn spec_meta_parts(meta: Seq<u8>, now: u64) -> (u64, JobOptions) {
    (
        spec_u64_from_be_bytes(meta.subrange(16, 24)),
        JobOptions::spec_from_bytes(meta.subrange(0, 16), now),
    )
}

/// Read a job's key and options from its wire metadata, taking `now` as the
/// factory and worker times. Missing metadata is an error. The key is read from
/// the eight bytes after the options, so the metadata must hold them.
pub fn deserialize_meta(maybe_bytes: Option<Vec<u8>>, now: u64) -> (r: Result<
    (u64, JobOptions),
    BoxedDowncastErr,
>)
    requires
        maybe_bytes matches Some(b) ==> b@.len() >= 24,
    ensures
        match maybe_bytes {
            None => r is Err,
            Some(b) => r == Ok::<(u64, JobOptions), BoxedDowncastErr>(spec_meta_parts(b@, now)),
        },
{
    match maybe_bytes {
        None => Err(BoxedDowncastErr),
        Some(mut meta_bytes) => {
            let ghost all = meta_bytes@;
            let key_bytes = meta_bytes.split_off(16);
            assert(key_bytes@ =~= all.subrange(16, all.len() as int));
            assert(meta_bytes@ =~= all.subrange(0, 16));
            let key = u64_from_be_bytes(key_bytes.as_slice(), 0);
            assert(key_bytes@.subrange(0, 8) =~= all.subrange(16, 24));
            let options = JobOptions::from_bytes_at(meta_bytes, now);
            Ok((key, options))
        },
    }
}

/// Metadata is well formed when a cast or call carries at least the 24 bytes
/// of options and key (or carries none, which is refused as an error).
pub open spec fn metadata_well_formed(bytes: SerializedMessage) -> bool {
    match bytes {
        SerializedMessage::Cast { metadata, .. } => metadata matches Some(m) ==> m@.len() >= 24,
        SerializedMessage::Call { metadata, .. } => metadata matches Some(m) ==> m@.len() >= 24,
        SerializedMessage::CallReply(_, _) => true,
    }
}

/// `r` is the serialized message `inner` carrying `meta` as its metadata: a
/// cast or call keeps its variant, arguments and reply port; a call reply, or a
/// failed serialization, gives an error
pub open spec fn spec_attached(
    inner: Result<SerializedMessage, BoxedDowncastErr>,
    meta: Seq<u8>,
    r: Result<SerializedMessage, BoxedDowncastErr>,
) -> bool {
    match inner {
        Ok(SerializedMessage::Cast { variant, args, .. }) => r matches Ok(
            SerializedMessage::Cast { variant: v, args: a, metadata: Some(m) },
        ) && v == variant && a == args && m@ == meta,
        Ok(SerializedMessage::Call { variant, args, reply, .. }) => r matches Ok(
            SerializedMessage::Call { variant: v, args: a, reply: p, metadata: Some(m) },
        ) && v == variant && a == args && p == reply && m@ == meta,
        _ => r is Err,
    }
}

/// A serialized cast or call with its metadata taken off
pub open spec fn spec_detached(bytes: SerializedMessage) -> SerializedMessage {
    match bytes {
        SerializedMessage::Cast { variant, args, .. } => SerializedMessage::Cast {
            variant,
            args,
            metadata: None,
        },
        SerializedMessage::Call { variant, args, reply, .. } => SerializedMessage::Call {
            variant,
            args,
            reply,
            metadata: None,
        },
        other => other,
    }
}

/// The job made of a key and options, and of a message when it could be read
/// (else the error reading it); it has no acceptance port
pub open spec fn spec_job_from<TMsg>(
    parts: (u64, JobOptions),
    msg: Result<TMsg, BoxedDowncastErr>,
) -> Result<Job<TMsg>, BoxedDowncastErr> {
    match msg {
        Ok(m) => Ok(Job { key: parts.0, msg: m, options: parts.1, accepted: None }),
        Err(e) => Err(e),
    }
}

/// `r` is what deserializing a job from `bytes` gives: for a cast or call
/// carrying metadata, the job of the key and options the metadata gives (read
/// at some instant) and of what the message type's `deserialize` gives for the
/// message without its metadata; otherwise an error
pub open spec fn spec_job_deserialized<TMsg: Message>(
    bytes: SerializedMessage,
    r: Result<Job<TMsg>, BoxedDowncastErr>,
) -> bool {
    match bytes {
        SerializedMessage::Cast { metadata: Some(meta), .. } => exists|
            now: u64,
            m: Result<TMsg, BoxedDowncastErr>,
        |
            #![trigger spec_meta_parts(meta@, now), call_ensures(TMsg::deserialize, (spec_detached(bytes),), m)]
            call_ensures(TMsg::deserialize, (spec_detached(bytes),), m) && r == spec_job_from(
                spec_meta_parts(meta@, now),
                m,
            ),
        SerializedMessage::Call { metadata: Some(meta), .. } => exists|
            now: u64,
            m: Result<TMsg, BoxedDowncastErr>,
        |
            #![trigger spec_meta_parts(meta@, now), call_ensures(TMsg::deserialize, (spec_detached(bytes),), m)]
            call_ensures(TMsg::deserialize, (spec_detached(bytes),), m) && r == spec_job_from(
                spec_meta_parts(meta@, now),
                m,
            ),
        _ => r is Err,
    }
}

/// Attach a job's metadata to its serialized message. A cast or call keeps its
/// variant, arguments and reply port and takes `meta` as its metadata; a call
/// reply, or a failed serialization, is an error.
pub fn attach_job_metadata(
    inner: Result<SerializedMessage, BoxedDowncastErr>,
    meta: Vec<u8>,
) -> (r: Result<SerializedMessage, BoxedDowncastErr>)
    ensures
        match inner {
            Ok(SerializedMessage::Cast { variant, args, .. }) => r matches Ok(
                SerializedMessage::Cast { variant: v, args: a, metadata: Some(m) },
            ) && v == variant && a == args && m == meta,
            Ok(SerializedMessage::Call { variant, args, reply, .. }) => r matches Ok(
                SerializedMessage::Call { variant: v, args: a, reply: p, metadata: Some(m) },
            ) && v == variant && a == args && p == reply && m == meta,
            _ => r is Err,
        },
        spec_attached(inner, meta@, r),
{
    match inner {
        Ok(SerializedMessage::Cast { variant, args, .. }) => Ok(
            SerializedMessage::Cast { variant, args, metadata: Some(meta) },
        ),
        Ok(SerializedMessage::Call { variant, args, reply, .. }) => Ok(
            SerializedMessage::Call { variant, args, reply, metadata: Some(meta) },
        ),
        _ => Err(BoxedDowncastErr),
    }
}

/// Take a job's metadata off a serialized message, reading the key and
/// options at instant `now`: gives the key, the options and the message with
/// its metadata removed. A call reply, or a message without metadata, is an
/// error.
pub fn detach_job_metadata(bytes: SerializedMessage, now: u64) -> (r: Result<
    (u64, JobOptions, SerializedMessage),
    BoxedDowncastErr,
>)
    requires
        metadata_well_formed(bytes),
    ensures
        match bytes {
            SerializedMessage::Cast { variant, args, metadata: Some(m) } => r matches Ok(
                (k, o, SerializedMessage::Cast { variant: v, args: a, metadata: None }),
            ) && (k, o) == spec_meta_parts(m@, now) && v == variant && a == args,
            SerializedMessage::Call { variant, args, reply, metadata: Some(m) } => r matches Ok(
                (k, o, SerializedMessage::Call { variant: v, args: a, reply: p, metadata: None }),
            ) && (k, o) == spec_meta_parts(m@, now) && v == variant && a == args && p == reply,
            _ => r is Err,
        },
{
    match bytes {
        SerializedMessage::CallReply(_, _) => Err(BoxedDowncastErr),
        SerializedMessage::Cast { variant, args, metadata } => {
            match deserialize_meta(metadata, now) {
                Ok((key, options)) => Ok(
                    (key, options, SerializedMessage::Cast { variant, args, metadata: None }),
                ),
                Err(e) => Err(e),
            }
        },
        SerializedMessage::Call { variant, args, reply, metadata } => {
            match deserialize_meta(metadata, now) {
                Ok((key, options)) => Ok(
                    (key, options, SerializedMessage::Call { variant, args, reply, metadata: None }),
                ),
                Err(e) => Err(e),
            }
        },
    }
}

/// The key and options are those the metadata of a cast or call gives when
/// read at instant `now`.
pub open spec fn spec_meta_read_from(
    bytes: SerializedMessage,
    key: u64,
    options: JobOptions,
    now: u64,
) -> bool {
    match bytes {
        SerializedMessage::Cast { metadata: Some(m), .. } => (key, options) == spec_meta_parts(
            m@,
            now,
        ),
        SerializedMessage::Call { metadata: Some(m), .. } => (key, options) == spec_meta_parts(
            m@,
            now,
        ),
        _ => false,
    }
}

/// A job's key and options survive its wire metadata: the key, the submit time
/// and the time-to-live read back are those written (a zero time-to-live reads
/// back as none, so it is left out).
pub proof fn lemma_job_meta_roundtrip<TMsg>(key: u64, options: JobOptions, now: u64)
    requires
        options.ttl != Some(0u64),
    ensures
        spec_meta_parts(Job::<TMsg>::spec_meta(key, options), now).0 == key,
        spec_meta_parts(Job::<TMsg>::spec_meta(key, options), now).1.submit_time
            == options.submit_time,
        spec_meta_parts(Job::<TMsg>::spec_meta(key, options), now).1.ttl == options.ttl,
{
    let m = Job::<TMsg>::spec_meta(key, options);
    assert(m.subrange(0, 16) =~= options.spec_to_bytes());
    assert(m.subrange(16, 24) =~= spec_u64_to_be_bytes(key));
    lemma_u64_be_roundtrip(key);
    lemma_options_bytes_roundtrip(options, now);
}

impl<TMsg> Job<TMsg> {
    /// The job with `key` and `options` whose message is `msg`, when the
    /// message could be read; otherwise the error reading it. The job has no
    /// acceptance port.
    pub fn from_parts(key: u64, options: JobOptions, msg: Result<TMsg, BoxedDowncastErr>) -> (r:
        Result<Job<TMsg>, BoxedDowncastErr>)
        ensures
            match msg {
                Ok(m) => r == Ok::<Job<TMsg>, BoxedDowncastErr>(
                    Job { key, msg: m, options, accepted: None },
                ),
                Err(e) => r == Err::<Job<TMsg>, BoxedDowncastErr>(e),
            },
            r == spec_job_from((key, options), msg),
    {
        match msg {
            Ok(m) => Ok(Job { key, msg: m, options, accepted: None }),
            Err(e) => Err(e),
        }
    }
}

impl<TMsg: Message> Job<TMsg> {
    /// A job is serializable when its message is
    pub fn serializable() -> (r: bool)
        ensures
            call_ensures(TMsg::serializable, (), r),
    {
        TMsg::serializable()
    }

    /// Serialize the job: the message is serialized and carries the job's
    /// metadata (see `attach_job_metadata`).
    pub fn serialize(self) -> (r: Result<SerializedMessage, BoxedDowncastErr>)
        ensures
            r matches Ok(b) ==> match b {
                SerializedMessage::Cast { metadata: Some(m), .. } => m@ == Self::spec_meta(
                    self.key,
                    self.options,
                ),
                SerializedMessage::Call { metadata: Some(m), .. } => m@ == Self::spec_meta(
                    self.key,
                    self.options,
                ),
                _ => false,
            },
            exists|inner: Result<SerializedMessage, BoxedDowncastErr>|
                #[trigger] call_ensures(TMsg::serialize, (self.msg,), inner) && spec_attached(
                    inner,
                    Self::spec_meta(self.key, self.options),
                    r,
                ),
    {
        let (meta, msg) = self.serialize_meta();
        let inner = msg.serialize();
        let ghost inner_as = inner;
        let r = attach_job_metadata(inner, meta);
        assert(call_ensures(TMsg::serialize, (self.msg,), inner_as));
        r
    }

    /// Deserialize a job: the key and options come from the metadata (see
    /// `detach_job_metadata`), the message from the rest. A deserialized job has
    /// no acceptance port.
    pub fn deserialize(bytes: SerializedMessage) -> (r: Result<Self, BoxedDowncastErr>)
        requires
            metadata_well_formed(bytes),
        ensures
            bytes is CallReply ==> r is Err,
            bytes matches SerializedMessage::Cast { metadata: None, .. } ==> r is Err,
            bytes matches SerializedMessage::Call { metadata: None, .. } ==> r is Err,
            r matches Ok(job) ==> job.accepted is None && exists|now: u64|
                spec_clock_reading(now) && #[trigger] spec_meta_read_from(bytes, job.key, job.options, now),
            spec_job_deserialized(bytes, r),
    {
        let now = now_nanos();
        let ghost given = bytes;
        match detach_job_metadata(bytes, now) {
            Err(e) => Err(e),
            Ok((key, options, inner)) => {
                let ghost inner_as = inner;
                let m = TMsg::deserialize(inner);
                let ghost m_as = m;
                let r = Job::from_parts(key, options, m);
                proof {
                    assert(inner_as == spec_detached(given));
                    assert(call_ensures(TMsg::deserialize, (spec_detached(given),), m_as));
                    match given {
                        SerializedMessage::Cast { metadata: Some(meta), .. } => {
                            assert((key, options) == spec_meta_parts(meta@, now));
                        },
                        SerializedMessage::Call { metadata: Some(meta), .. } => {
                            assert((key, options) == spec_meta_parts(meta@, now));
                        },
                        _ => {},
                    }
                }
                assert(r matches Ok(job) ==> spec_meta_read_from(given, job.key, job.options, now));
                r
            },
        }
    }
}

/// The retry strategy for a retriable message
#[derive(Debug, Clone, Copy, PartialEq, Eq, Structural)]
pub enum MessageRetryStrategy {
    /// Retry the message forever, without limit
    RetryForever,
    /// Retry up to the provided number of times
    Count(usize),
    /// No retries
    NoRetry,
}

impl MessageRetryStrategy {
    /// Whether a retry is left: always when retrying forever, while the count is
    /// positive otherwise.
    pub open spec fn spec_has_retries(self) -> bool {
        match self {
            MessageRetryStrategy::RetryForever => true,
            MessageRetryStrategy::Count(n) => n > 0,
            MessageRetryStrategy::NoRetry => false,
        }
    }

    /// The strategy after one retry is used: a count above one goes down by one,
    /// retrying forever stays, anything else has no retries left.
    pub open spec fn spec_decrement(self) -> Self {
        match self {
            MessageRetryStrategy::Count(n) => if n > 1 {
                MessageRetryStrategy::Count((n - 1) as usize)
            } else {
                MessageRetryStrategy::NoRetry
            },
            MessageRetryStrategy::RetryForever => MessageRetryStrategy::RetryForever,
            MessageRetryStrategy::NoRetry => MessageRetryStrategy::NoRetry,
        }
    }

    /// Whether a retry is left
    pub fn has_retries(&self) -> (r: bool)
        ensures
            r == self.spec_has_retries(),
    {
        match self {
            MessageRetryStrategy::RetryForever => true,
            MessageRetryStrategy::Count(n) => *n > 0,
            MessageRetryStrategy::NoRetry => false,
        }
    }

    /// The strategy after one retry is used
    pub fn decrement(&self) -> (r: Self)
        ensures
            r == self.spec_decrement(),
    {
        match self {
            MessageRetryStrategy::Count(n) if *n > 1 => MessageRetryStrategy::Count(*n - 1),
            MessageRetryStrategy::RetryForever => MessageRetryStrategy::RetryForever,
            _ => MessageRetryStrategy::NoRetry,
        }
    }
}


/// A time-to-live counts from submission: options with a time-to-live have
/// not expired at any instant from their submission up to `ttl` later, and
/// have expired at every instant after that.
pub proof fn lemma_expiry_follows_ttl(o: JobOptions, t: u64)
    requires
        o.ttl is Some,
    ensures
        o.submit_time <= t <= o.submit_time + o.ttl->0 ==> !o.spec_expired_at(t),
        t > o.submit_time + o.ttl->0 ==> o.spec_expired_at(t),
{
}

/// Fresh options are stamped with a clock reading, the same for all three
/// instants, so a fresh job stays unexpired for its whole time-to-live from
/// that reading.
pub proof fn lemma_fresh_options_unexpired(o: JobOptions, ttl: Option<u64>)
    requires
        o.ttl == ttl,
        o.factory_time == o.submit_time,
        o.worker_time == o.submit_time,
        spec_clock_reading(o.submit_time),
    ensures
        forall|t: u64|
            ttl matches Some(d) && o.submit_time <= t <= o.submit_time + d ==> !#[trigger] o.spec_expired_at(t),
        ttl is None ==> forall|t: u64| !#[trigger] o.spec_expired_at(t),
{
}

/// The strategy after `k` retries were used
pub open spec fn spec_after_retries(s: MessageRetryStrategy, k: nat) -> MessageRetryStrategy
    decreases k,
{
    if k == 0 {
        s
    } else {
        spec_after_retries(s.spec_decrement(), (k - 1) as nat)
    }
}

/// After `k` of `n` counted retries, `n - k` are left (none once they are
/// all used).
proof fn lemma_count_after_retries(n: usize, k: nat)
    requires
        k <= n,
    ensures
        spec_after_retries(MessageRetryStrategy::Count(n), k) == if k < n {
            MessageRetryStrategy::Count((n - k) as usize)
        } else if n == 0 {
            MessageRetryStrategy::Count(0)
        } else {
            MessageRetryStrategy::NoRetry
        },
    decreases k,
{
    if k > 0 {
        let next = MessageRetryStrategy::Count(n).spec_decrement();
        if n > 1 {
            lemma_count_after_retries((n - 1) as usize, (k - 1) as nat);
        } else {
            assert(next == MessageRetryStrategy::NoRetry);
            assert(k == 1);
            assert(spec_after_retries(next, 0) == next);
        }
    }
}

/// Using `a` retries and then `b` more is using `a + b`.
proof fn lemma_after_retries_add(s: MessageRetryStrategy, a: nat, b: nat)
    ensures
        spec_after_retries(s, a + b) == spec_after_retries(spec_after_retries(s, a), b),
    decreases a,
{
    if a > 0 {
        lemma_after_retries_add(s.spec_decrement(), (a - 1) as nat, b);
        assert((a - 1) as nat + b == (a + b - 1) as nat);
    }
}

/// A strategy with no retry left keeps none.
proof fn lemma_no_retry_stays(s: MessageRetryStrategy, k: nat)
    requires
        !s.spec_has_retries(),
    ensures
        !spec_after_retries(s, k).spec_has_retries(),
    decreases k,
{
    if k > 0 {
        lemma_no_retry_stays(s.spec_decrement(), (k - 1) as nat);
    }
}

/// Retrying forever leaves a retry however many were used.
proof fn lemma_forever_stays(k: nat)
    ensures
        spec_after_retries(MessageRetryStrategy::RetryForever, k) == MessageRetryStrategy::RetryForever,
    decreases k,
{
    if k > 0 {
        lemma_forever_stays((k - 1) as nat);
    }
}

/// A count of `n` allows exactly `n` retries: a retry is left before each of
/// the first `n`, and none after them. Retrying forever always leaves one.
pub proof fn lemma_retry_count(n: usize, k: nat)
    ensures
        k < n ==> spec_after_retries(MessageRetryStrategy::Count(n), k).spec_has_retries(),
        k >= n ==> !spec_after_retries(MessageRetryStrategy::Count(n), k).spec_has_retries(),
        spec_after_retries(MessageRetryStrategy::RetryForever, k) == MessageRetryStrategy::RetryForever,
{
    lemma_forever_stays(k);
    if k <= n {
        lemma_count_after_retries(n, k);
    } else {
        let used = spec_after_retries(MessageRetryStrategy::Count(n), n as nat);
        lemma_count_after_retries(n, n as nat);
        lemma_no_retry_stays(used, (k - n) as nat);
        lemma_after_retries_add(MessageRetryStrategy::Count(n), n as nat, (k - n) as nat);
        assert(n as nat + (k - n) as nat == k);
    }
}

/// A job message which is retried when it is dropped before it was marked
/// completed, while retries are left: `retry_dispatch` gives the dispatch to
/// send to the factory again. The host holds the factory's reference and the
/// retry hook beside the message, and sends that dispatch when it drops the
/// message. The options of the original job are kept here once the retry
/// state was captured.
#[derive(Debug)]
pub struct RetriableMessage<TMsg> {
    /// The key of the retriable job
    pub key: u64,
    /// The message, retried until it is completed (`None` once it was used up)
    pub message: Option<TMsg>,
    /// The retry strategy
    pub strategy: MessageRetryStrategy,
    /// The options of the original job, once the retry state was captured
    pub retry_options: Option<JobOptions>,
}

impl<TMsg> RetriableMessage<TMsg> {
    /// A retriable message with the given strategy and no retry state yet
    pub fn new(key: u64, message: TMsg, strategy: MessageRetryStrategy) -> (r: Self)
        ensures
            r.key == key,
            r.message == Some(message),
            r.strategy == strategy,
            r.retry_options is None,
    {
        RetriableMessage { key, message: Some(message), strategy, retry_options: None }
    }

    /// Keep the options of the original job, which a retry is sent with
    pub fn capture_retry_state(&mut self, options: &JobOptions)
        ensures
            *final(self) == (RetriableMessage { retry_options: Some(*options), ..*old(self) }),
    {
        self.retry_options = Some(*options);
    }

    /// Turn a job into a job of a retriable message with the given strategy,
    /// keeping its key and options (also as the retry state). The acceptance
    /// port, if any, is dropped: retriable jobs are not answered on it.
    pub fn from_job(job: Job<TMsg>, strategy: MessageRetryStrategy) -> (r: Job<RetriableMessage<TMsg>>)
        ensures
            r.key == job.key,
            r.options == job.options,
            r.accepted is None,
            r.msg == (RetriableMessage {
                key: job.key,
                message: Some(job.msg),
                strategy,
                retry_options: Some(job.options),
            }),
    {
        let Job { key, msg, options, accepted: _ } = job;
        let mut retriable = RetriableMessage::new(key, msg, strategy);
        retriable.capture_retry_state(&options);
        Job { key, msg: retriable, options, accepted: None }
    }

    /// Mark the message as handled: it is not retried when dropped
    pub fn completed(&mut self)
        ensures
            final(self).key == old(self).key,
            final(self).retry_options == old(self).retry_options,
            final(self).strategy == MessageRetryStrategy::NoRetry,
            final(self).message is None,
    {
        self.strategy = MessageRetryStrategy::NoRetry;
        self.message = None;
    }
}

/// What a retriable message sends to its factory when it is dropped: when a
/// retry is left, the message was not used up and the retry state was
/// captured, a dispatch of a job with the same key and options, holding the
/// message with one retry fewer and no acceptance port; otherwise nothing.
pub fn retry_dispatch<TMsg>(m: RetriableMessage<TMsg>) -> (r: Option<FactoryMessage<RetriableMessage<TMsg>>>)
    ensures
        r is Some <==> (m.strategy.spec_has_retries() && m.message is Some && m.retry_options is Some),
        r matches Some(f) ==> f matches FactoryMessage::Dispatch(job) && job.key == m.key
            && Some(job.options) == m.retry_options && job.accepted is None && job.msg == (
        RetriableMessage {
            key: m.key,
            message: m.message,
            strategy: m.strategy.spec_decrement(),
            retry_options: m.retry_options,
        }),
{
    let RetriableMessage { key, message, strategy, retry_options } = m;
    if !strategy.has_retries() {
        return None;
    }
    match (message, retry_options) {
        (Some(msg), Some(options)) => {
            let retried = RetriableMessage {
                key,
                message: Some(msg),
                strategy: strategy.decrement(),
                retry_options: Some(options),
            };
            Some(FactoryMessage::Dispatch(Job { key, msg: retried, options, accepted: None }))
        },
        _ => None,
    }
}

} // verus!
