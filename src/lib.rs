//! Authenticated, encrypted, ordered message channels between peers.
//!
//! The library holds the protocol logic: the length-prefixed buffer codec,
//! the signed and optionally encrypted packet envelope, path negotiation,
//! the key-exchange state machine, and the channel's ordering rules. Sockets,
//! threads and user interfaces live with the caller, which feeds the library
//! bytes and events and carries out what it answers.
use vstd::prelude::*;

pub mod channel;
pub mod codec;
pub mod crypto;
pub mod error;
pub mod events;
pub mod exchange;
pub mod handshake;
pub mod message;
pub mod packet;

pub use channel::{Channel, ChannelDesc, Received};
pub use codec::{read_buffer, write_buffer, CodecError, Cursor, ErrorKind};
pub use crypto::{AesKey, PrivateKey, PublicKey};
pub use error::ProtocolError;
pub use events::{notify, Event, EventRecipient, Severity};
pub use exchange::{AesHandshake, FromPacket, IntoPacket, RsaHandshake, Setup, Step};
pub use handshake::{classify, Handshake, ProtocolPath};
pub use message::Message;
pub use packet::Packet;
