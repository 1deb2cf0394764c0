//! Path negotiation: the first, unsigned message on every new connection.
use vstd::prelude::*;

use crate::codec::{frame, lemma_read_frame, read_buffer, read_buffer_result, write_buffer, CodecError, Cursor, ErrorKind};
use crate::error::ProtocolError;

verus! {

/// The version of the protocol that this library speaks.
pub const PROTOCOL_V: u16 = 1;

/// The bitcode encoding of a path tag and a version.
pub uninterp spec fn greeting_encoding(tag: u8, version: u16) -> Option<Seq<u8>>;

/// The path tag and version that bitcode decodes from the bytes.
pub uninterp spec fn greeting_decoding(bytes: Seq<u8>) -> Option<(u8, u16)>;

/// Relies on `bitcode::serialize` of a `(u8, u16)` pair, which
/// `bitcode::deserialize` reads back to the same pair (the crate's README
/// example and its serde round-trip test, `serde/de.rs`).
#[verifier::external_body]
fn encode_greeting(tag: u8, version: u16) -> (r: Result<Vec<u8>, bitcode::Error>)
    ensures
        r is Ok <==> greeting_encoding(tag, version) is Some,
        r matches Ok(v) ==> v@ == greeting_encoding(tag, version)->0,
        r matches Ok(v) ==> greeting_decoding(v@) == Some((tag, version)),
{
    bitcode::serialize(&(tag, version))
}

/// Relies on `bitcode::deserialize` into a `(u8, u16)` pair.
#[verifier::external_body]
fn decode_greeting(bytes: &[u8]) -> (r: Result<(u8, u16), bitcode::Error>)
    ensures
        r is Ok <==> greeting_decoding(bytes@) is Some,
        r matches Ok(v) ==> v == greeting_decoding(bytes@)->0,
{
    bitcode::deserialize::<(u8, u16)>(bytes)
}

/// What the sender of a greeting wants to do next.
#[derive(Clone, Copy, Debug, PartialEq, Eq, Structural)]
pub enum ProtocolPath {
    /// The peers have never met: exchange public keys first.
    RsaExchange,
    /// The peers know each other's public keys: exchange session keys.
    AesExchange,
}

impl Default for ProtocolPath {
    fn default() -> (r: ProtocolPath)
        ensures
            r == ProtocolPath::RsaExchange,
    {
        ProtocolPath::RsaExchange
    }
}

/// The tag of a path on the wire.
pub open spec fn path_tag(p: ProtocolPath) -> u8 {
    match p {
        ProtocolPath::RsaExchange => 0,
        ProtocolPath::AesExchange => 1,
    }
}

/// The path of a tag on the wire, if it names one.
pub open spec fn path_of_tag(t: u8) -> Option<ProtocolPath> {
    if t == 0 {
        Some(ProtocolPath::RsaExchange)
    } else if t == 1 {
        Some(ProtocolPath::AesExchange)
    } else {
        None
    }
}

/// The first message on a connection, neither signed nor encrypted: it
/// points the recipient to what comes next.
#[derive(Clone, Copy, Debug, PartialEq, Eq, Structural)]
pub struct Handshake {
    path: ProtocolPath,
    version: u16,
}

impl Handshake {
    pub closed spec fn spec_path(&self) -> ProtocolPath {
        self.path
    }

    pub closed spec fn spec_version(&self) -> u16 {
        self.version
    }

    /// A greeting of this protocol's version, announcing `path`.
    pub fn new(path: ProtocolPath) -> (r: Handshake)
        ensures
            r.spec_path() == path,
            r.spec_version() == PROTOCOL_V,
    {
        Handshake { path, version: PROTOCOL_V }
    }

    /// Whether the sender speaks this protocol's version.
    pub fn version_ok(&self) -> (r: bool)
        ensures
            r == (self.spec_version() == PROTOCOL_V),
    {
        self.version == PROTOCOL_V
    }

    /// What the sender wants to do next.
    pub fn next(self) -> (r: ProtocolPath)
        ensures
            r == self.spec_path(),
    {
        self.path
    }

    /// The version that the sender speaks.
    pub fn version(&self) -> (r: u16)
        ensures
            r == self.spec_version(),
    {
        self.version
    }

    /// Encodes the greeting and writes it as one buffer.
    pub fn to_writer(&self, stream: &mut Vec<u8>) -> (r: Result<(), ProtocolError>)
        ensures
            r is Ok <==> (greeting_encoding(path_tag(self.spec_path()), self.spec_version()) is Some
                && greeting_encoding(path_tag(self.spec_path()), self.spec_version())->0.len()
                <= u32::MAX),
            r is Ok ==> final(stream)@ == old(stream)@ + frame(
                greeting_encoding(path_tag(self.spec_path()), self.spec_version())->0,
            ),
            r is Ok ==> greeting_decoding(
                greeting_encoding(path_tag(self.spec_path()), self.spec_version())->0,
            ) == Some((path_tag(self.spec_path()), self.spec_version())),
            r is Err ==> final(stream)@ == old(stream)@,
    {
        let tag: u8 = match self.path {
            ProtocolPath::RsaExchange => 0,
            ProtocolPath::AesExchange => 1,
        };
        let bytes = match encode_greeting(tag, self.version) {
            Ok(b) => b,
            Err(e) => {
                return Err(ProtocolError::SerializationError(e));
            },
        };
        if bytes.len() > u32::MAX as usize {
            return Err(ProtocolError::IoError(CodecError { kind: ErrorKind::InvalidInput }));
        }
        match write_buffer(stream, bytes.as_slice()) {
            Ok(()) => Ok(()),
            Err(e) => Err(ProtocolError::IoError(e)),
        }
    }

    /// Reads one buffer and decodes the greeting in it. A tag that names no
    /// path is malformed data.
    pub fn from_reader(reader: &mut Cursor) -> (r: Result<Handshake, ProtocolError>)
        requires
            old(reader).wf(),
        ensures
            final(reader).wf(),
            final(reader).content() == old(reader).content(),
            match read_buffer_result(old(reader).remaining()) {
                Err(e) => r matches Err(ProtocolError::IoError(err)) && err.kind == e,
                Ok((b, _)) => match greeting_decoding(b) {
                    None => r matches Err(ProtocolError::SerializationError(_)),
                    Some((t, v)) => match path_of_tag(t) {
                        None => r matches Err(ProtocolError::IoError(err)) && err.kind
                            == ErrorKind::InvalidData,
                        Some(p) => r matches Ok(h) && h.spec_path() == p && h.spec_version() == v,
                    },
                },
            },
    {
        let bytes = match read_buffer(reader) {
            Ok(b) => b,
            Err(e) => {
                return Err(ProtocolError::IoError(e));
            },
        };
        let (tag, version) = match decode_greeting(bytes.as_slice()) {
            Ok(v) => v,
            Err(e) => {
                return Err(ProtocolError::SerializationError(e));
            },
        };
        let path = if tag == 0 {
            ProtocolPath::RsaExchange
        } else if tag == 1 {
            ProtocolPath::AesExchange
        } else {
            return Err(ProtocolError::IoError(CodecError { kind: ErrorKind::InvalidData }));
        };
        Ok(Handshake { path, version })
    }
}

/// Reads the greeting that opens an inbound connection and says which
/// exchange the peer asks for. A peer of another version is ignored: the
/// answer is then `None`, which is no error.
pub fn classify(reader: &mut Cursor) -> (r: Result<Option<ProtocolPath>, ProtocolError>)
    requires
        old(reader).wf(),
    ensures
        final(reader).wf(),
        final(reader).content() == old(reader).content(),
        match read_buffer_result(old(reader).remaining()) {
            Err(e) => r matches Err(ProtocolError::IoError(err)) && err.kind == e,
            Ok((b, _)) => match greeting_decoding(b) {
                None => r matches Err(ProtocolError::SerializationError(_)),
                Some((t, v)) => match path_of_tag(t) {
                    None => r matches Err(ProtocolError::IoError(err)) && err.kind
                        == ErrorKind::InvalidData,
                    Some(p) => r == Ok::<Option<ProtocolPath>, ProtocolError>(
                        if v == PROTOCOL_V {
                            Some(p)
                        } else {
                            None
                        },
                    ),
                },
            },
        },
{
    let handshake = match Handshake::from_reader(reader) {
        Ok(h) => h,
        Err(e) => {
            return Err(e);
        },
    };
    if !handshake.version_ok() {
        return Ok(None);
    }
    Ok(Some(handshake.next()))
}

impl Default for Handshake {
    fn default() -> (r: Handshake)
        ensures
            r.spec_path() == ProtocolPath::RsaExchange,
            r.spec_version() == PROTOCOL_V,
    {
        Handshake::new(ProtocolPath::RsaExchange)
    }
}

/// A greeting of this version, written and read back by the listener, is
/// classified as the path it announced, whatever follows it.
pub proof fn lemma_greeting_classified(path: ProtocolPath, rest: Seq<u8>)
    requires
        greeting_encoding(path_tag(path), PROTOCOL_V) is Some,
        greeting_encoding(path_tag(path), PROTOCOL_V)->0.len() <= u32::MAX,
        greeting_decoding(greeting_encoding(path_tag(path), PROTOCOL_V)->0) == Some(
            (path_tag(path), PROTOCOL_V),
        ),
    ensures
        ({
            let b = greeting_encoding(path_tag(path), PROTOCOL_V)->0;
            &&& read_buffer_result(frame(b) + rest) == Ok::<(Seq<u8>, nat), ErrorKind>(
                (b, frame(b).len()),
            )
            &&& greeting_decoding(b) == Some((path_tag(path), PROTOCOL_V))
            &&& path_of_tag(path_tag(path)) == Some(path)
        }),
{
    let b = greeting_encoding(path_tag(path), PROTOCOL_V)->0;
    lemma_read_frame(b, rest);
}

} // verus!
