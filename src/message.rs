//! Chat messages and their encoding.
use vstd::prelude::*;

use crate::error::ProtocolError;

verus! {

/// The bitcode encoding of a message's content and timestamp.
pub uninterp spec fn message_encoding(content: Seq<char>, timestamp: i64) -> Option<Seq<u8>>;

/// The content and timestamp that bitcode decodes from the bytes.
pub uninterp spec fn message_decoding(bytes: Seq<u8>) -> Option<(Seq<char>, i64)>;

/// Relies on `bitcode::serialize` of a `(String, i64)` pair, which
/// `bitcode::deserialize` reads back to the same pair (the crate's README
/// example and its serde round-trip test, `serde/de.rs`).
#[verifier::external_body]
fn encode_message(content: &String, timestamp: i64) -> (r: Result<Vec<u8>, bitcode::Error>)
    ensures
        r is Ok <==> message_encoding(content@, timestamp) is Some,
        r matches Ok(v) ==> v@ == message_encoding(content@, timestamp)->0,
        r matches Ok(v) ==> message_decoding(v@) == Some((content@, timestamp)),
{
    bitcode::serialize(&(content, timestamp))
}

/// Relies on `bitcode::deserialize` into a `(String, i64)` pair.
#[verifier::external_body]
fn decode_message(bytes: &[u8]) -> (r: Result<(String, i64), bitcode::Error>)
    ensures
        r is Ok <==> message_decoding(bytes@) is Some,
        r matches Ok(v) ==> (v.0@, v.1) == message_decoding(bytes@)->0,
{
    bitcode::deserialize::<(String, i64)>(bytes)
}

/// Relies on chrono's `From<SystemTime> for DateTime<Utc>`: the current
/// time, in microseconds since the Unix epoch, negative for a clock set
/// before 1970 (where `Utc::now` would panic). Nothing is known of its
/// value. chrono's range, about 262,000 years either side of year 0, bounds
/// the clock it takes.
#[verifier::external_body]
fn now_micros() -> (r: i64) {
    chrono::DateTime::<chrono::Utc>::from(std::time::SystemTime::now()).timestamp_micros()
}

/// A chat message. Its timestamp counts microseconds since the Unix epoch.
pub struct Message {
    content: String,
    timestamp: i64,
    ours: bool,
}

/// A message as a value: content, timestamp, and whether it is ours.
pub type MessageView = (Seq<char>, i64, bool);

impl View for Message {
    type V = MessageView;

    open spec fn view(&self) -> MessageView {
        (self.spec_content(), self.spec_timestamp(), self.spec_ours())
    }
}

impl Message {
    pub closed spec fn spec_content(&self) -> Seq<char> {
        self.content@
    }

    pub closed spec fn spec_timestamp(&self) -> i64 {
        self.timestamp
    }

    pub closed spec fn spec_ours(&self) -> bool {
        self.ours
    }

    /// A message of ours, stamped with the current time.
    pub fn new(content: String) -> (r: Message)
        ensures
            r.spec_content() == content@,
            r.spec_ours(),
    {
        let timestamp = now_micros();
        Message { content, timestamp, ours: true }
    }

    /// A message of ours with the given timestamp.
    pub fn with_timestamp(content: String, timestamp: i64) -> (r: Message)
        ensures
            r.spec_content() == content@,
            r.spec_timestamp() == timestamp,
            r.spec_ours(),
    {
        Message { content, timestamp, ours: true }
    }

    /// Whether we sent the message.
    pub fn is_ours(&self) -> (r: bool)
        ensures
            r == self.spec_ours(),
    {
        self.ours
    }

    /// Whether the peer sent the message.
    pub fn is_theirs(&self) -> (r: bool)
        ensures
            r == !self.spec_ours(),
    {
        !self.ours
    }

    /// When the message was written.
    pub fn timestamp(&self) -> (r: i64)
        ensures
            r == self.spec_timestamp(),
    {
        self.timestamp
    }

    /// What the message says.
    pub fn content(&self) -> (r: &String)
        ensures
            r@ == self.spec_content(),
    {
        &self.content
    }

    /// The message on the wire: content and timestamp. Whose it is stays
    /// behind.
    pub fn serialize(&self) -> (r: Result<Vec<u8>, ProtocolError>)
        ensures
            r is Ok <==> message_encoding(self.spec_content(), self.spec_timestamp()) is Some,
            r is Err ==> (r matches Err(ProtocolError::SerializationError(_))),
            r matches Ok(v) ==> v@ == message_encoding(self.spec_content(), self.spec_timestamp())->0,
            r matches Ok(v) ==> message_decoding(v@) == Some(
                (self.spec_content(), self.spec_timestamp()),
            ),
    {
        match encode_message(&self.content, self.timestamp) {
            Ok(v) => Ok(v),
            Err(e) => Err(ProtocolError::SerializationError(e)),
        }
    }

    /// A message read from the wire, which is always the peer's.
    pub fn deserialize(bytes: &[u8]) -> (r: Result<Message, ProtocolError>)
        ensures
            r is Ok <==> message_decoding(bytes@) is Some,
            r is Err ==> (r matches Err(ProtocolError::SerializationError(_))),
            r matches Ok(m) ==> message_decoding(bytes@) == Some((m.spec_content(), m.spec_timestamp()))
                && !m.spec_ours(),
    {
        match decode_message(bytes) {
            Ok((content, timestamp)) => Ok(Message { content, timestamp, ours: false }),
            Err(e) => Err(ProtocolError::SerializationError(e)),
        }
    }
}

} // verus!
