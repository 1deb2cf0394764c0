//! The key exchanges that precede a channel: public keys first, where the
//! peers have never met, then session keys.
use vstd::prelude::*;

use crate::channel::{chosen_name, Channel, ChannelDesc};
use crate::codec::{CodecError, ErrorKind};
use crate::crypto::{
    key_pair_consistent, modulus_bits_of, public_pem_of, rsa_decrypt, rsa_decrypted, rsa_encrypt, signature_of, signature_valid, AesKey,
    PrivateKey, PublicKey, AES_KEY_SIZE, C_INT_MAX, RSA_KEY_BITS,
};
use crate::error::ProtocolError;
use crate::message::Message;
use crate::packet::{lemma_packet_round_trip, packet_fits, packet_read_result, wire_of, Packet, PacketView};
use vstd::slice::slice_to_vec;

verus! {

/// Can be turned into a signed packet.
pub trait IntoPacket {
    fn into_packet(&self, private_key: &PrivateKey) -> Result<Packet, ProtocolError>;
}

/// Can be read out of a packet.
pub trait FromPacket: Sized {
    fn from_packet(packet: &Packet) -> Result<Self, ProtocolError>;
}

/// The packet that offers a public key: its PEM text, signed with the
/// private half, as bytes on the wire; where the pair is consistent, the
/// offered key verifies it. This proves possession of the key, not
/// identity.
pub open spec fn key_offer(own: Seq<u8>, wire: Seq<u8>) -> bool {
    let pem = public_pem_of(own)->0;
    let sig = signature_of(own, pem)->0;
    &&& public_pem_of(own) is Some
    &&& signature_of(own, pem) is Some
    &&& packet_fits((pem, sig, None))
    &&& (key_pair_consistent(own) ==> signature_valid(pem, pem, sig))
    &&& wire == wire_of((pem, sig, None))
}

/// The packet that offers a session key, as bytes on the wire: its data is
/// the key encrypted so that the consistent private half of `peer` decrypts
/// it, and it is signed with `own`, so that the public half of `own`
/// verifies it where `own` is consistent.
pub open spec fn session_offer(own: Seq<u8>, peer: Seq<u8>, key: Seq<u8>, wire: Seq<u8>) -> bool {
    exists|c: Seq<u8>|
        #![trigger signature_of(own, c)]
        {
            let sig = signature_of(own, c)->0;
            &&& signature_of(own, c) is Some
            &&& packet_fits((c, sig, None))
            &&& wire == wire_of((c, sig, None))
            &&& (key_pair_consistent(own) ==> (public_pem_of(own) matches Some(p)
                ==> signature_valid(p, c, sig)))
            &&& forall|k: Seq<u8>|
                #[trigger] public_pem_of(k) == Some(peer) && key_pair_consistent(k)
                    ==> rsa_decrypted(k, c) == Some(key)
        }
}

/// Delivers the public key of one party.
pub struct RsaHandshake {
    public_key: Vec<u8>,
}

impl RsaHandshake {
    pub closed spec fn spec_public_key(&self) -> Seq<u8> {
        self.public_key@
    }

    /// The handshake that offers the public half of `private_key`.
    pub fn new(private_key: &PrivateKey) -> (r: Result<RsaHandshake, ProtocolError>)
        ensures
            r is Ok <==> (public_pem_of(private_key@) matches Some(p) && p.len() <= C_INT_MAX),
            r matches Ok(h) ==> h.spec_public_key() == public_pem_of(private_key@)->0,
    {
        match private_key.public_key() {
            Ok(k) => Ok(RsaHandshake { public_key: slice_to_vec(k.pem()) }),
            Err(e) => Err(e),
        }
    }

    /// The offered key, where its text is short enough to be a key.
    pub fn public_key(&self) -> (r: Option<PublicKey>)
        ensures
            r is Some <==> self.spec_public_key().len() <= C_INT_MAX,
            r matches Some(k) ==> k@ == self.spec_public_key(),
    {
        PublicKey::from_pem(slice_to_vec(self.public_key.as_slice()))
    }

    /// The handshake signed with `private_key`.
    pub fn into_packet(&self, private_key: &PrivateKey) -> (r: Result<Packet, ProtocolError>)
        ensures
            r is Ok <==> signature_of(private_key@, self.spec_public_key()) is Some,
            r matches Ok(p) ==> p.wf() && p@ == (
                self.spec_public_key(),
                signature_of(private_key@, self.spec_public_key())->0,
                None::<Seq<u8>>,
            ),
            r matches Ok(p) ==> (key_pair_consistent(private_key@) ==> (public_pem_of(
                private_key@,
            ) matches Some(k) ==> signature_valid(k, p@.0, p@.1))),
    {
        Packet::from_data(slice_to_vec(self.public_key.as_slice()), private_key)
    }

    /// The handshake that a packet carries: its data is the key.
    pub fn from_packet(packet: &Packet) -> (r: RsaHandshake)
        ensures
            r.spec_public_key() == packet@.0,
    {
        RsaHandshake { public_key: slice_to_vec(packet.data()) }
    }
}

impl IntoPacket for RsaHandshake {
    fn into_packet(&self, private_key: &PrivateKey) -> Result<Packet, ProtocolError> {
        RsaHandshake::into_packet(self, private_key)
    }
}

impl FromPacket for RsaHandshake {
    fn from_packet(packet: &Packet) -> Result<RsaHandshake, ProtocolError> {
        Ok(RsaHandshake::from_packet(packet))
    }
}

/// Delivers a session key, encrypted under the recipient's public key.
pub struct AesHandshake {
    encrypted_aes_key: Vec<u8>,
}

impl AesHandshake {
    pub closed spec fn spec_encrypted_key(&self) -> Seq<u8> {
        self.encrypted_aes_key@
    }

    /// The handshake that carries `aes_key`, encrypted under `public_key`
    /// with OAEP padding.
    pub fn new(aes_key: &AesKey, public_key: &PublicKey) -> (r: Result<AesHandshake, ProtocolError>)
        ensures
            r matches Ok(h) ==> forall|k: Seq<u8>|
                #[trigger] public_pem_of(k) == Some(public_key@) && key_pair_consistent(k)
                    ==> rsa_decrypted(k, h.spec_encrypted_key()) == Some(aes_key@),
    {
        match rsa_encrypt(public_key.pem(), aes_key.as_bytes()) {
            Ok(encrypted_aes_key) => Ok(AesHandshake { encrypted_aes_key }),
            Err(e) => Err(ProtocolError::OpenSSLError(e)),
        }
    }

    /// The session key, decrypted with `private_key`. Anything but a
    /// 256-bit key is malformed.
    pub fn decrypt_key(&self, private_key: &PrivateKey) -> (r: Result<AesKey, ProtocolError>)
        ensures
            r is Ok <==> (rsa_decrypted(private_key@, self.spec_encrypted_key()) matches Some(k)
                && k.len() == AES_KEY_SIZE),
            r matches Ok(k) ==> k.wf() && k@ == rsa_decrypted(
                private_key@,
                self.spec_encrypted_key(),
            )->0,
    {
        let plain = match rsa_decrypt(private_key.pem(), self.encrypted_aes_key.as_slice()) {
            Ok(p) => p,
            Err(e) => {
                return Err(ProtocolError::OpenSSLError(e));
            },
        };
        match AesKey::from_bytes(plain) {
            Some(k) => Ok(k),
            None => Err(ProtocolError::IoError(CodecError { kind: ErrorKind::InvalidData })),
        }
    }

    /// The handshake signed with `private_key`.
    pub fn into_packet(&self, private_key: &PrivateKey) -> (r: Result<Packet, ProtocolError>)
        ensures
            r is Ok <==> signature_of(private_key@, self.spec_encrypted_key()) is Some,
            r matches Ok(p) ==> p.wf() && p@ == (
                self.spec_encrypted_key(),
                signature_of(private_key@, self.spec_encrypted_key())->0,
                None::<Seq<u8>>,
            ),
            r matches Ok(p) ==> (key_pair_consistent(private_key@) ==> (public_pem_of(
                private_key@,
            ) matches Some(k) ==> signature_valid(k, p@.0, p@.1))),
    {
        Packet::from_data(slice_to_vec(self.encrypted_aes_key.as_slice()), private_key)
    }

    /// The handshake that a packet carries: its data is the encrypted key.
    pub fn from_packet(packet: &Packet) -> (r: AesHandshake)
        ensures
            r.spec_encrypted_key() == packet@.0,
    {
        AesHandshake { encrypted_aes_key: slice_to_vec(packet.data()) }
    }
}

impl IntoPacket for AesHandshake {
    fn into_packet(&self, private_key: &PrivateKey) -> Result<Packet, ProtocolError> {
        AesHandshake::into_packet(self, private_key)
    }
}

impl FromPacket for AesHandshake {
    fn from_packet(packet: &Packet) -> Result<AesHandshake, ProtocolError> {
        Ok(AesHandshake::from_packet(packet))
    }
}

impl IntoPacket for Message {
    fn into_packet(&self, private_key: &PrivateKey) -> Result<Packet, ProtocolError> {
        let data = self.serialize()?;
        Packet::from_data(data, private_key)
    }
}

impl FromPacket for Message {
    fn from_packet(packet: &Packet) -> Result<Message, ProtocolError> {
        Message::deserialize(packet.data())
    }
}

/// A connection on its way to becoming a channel. Each side sends its
/// offer and then waits for the peer's.
pub enum Setup {
    /// Our public key is offered; the peer's is awaited.
    AwaitingPublicKey { own_key: PrivateKey, name: Option<String>, peer_addr: String },
    /// Our session key is offered; the peer's is awaited.
    AwaitingSessionKey { desc: ChannelDesc, receive_key: AesKey },
}

/// What a connection does after a packet of the peer.
pub enum Step {
    /// Send the bytes, then wait in the new state.
    Send(Setup, Vec<u8>),
    /// Both exchanges are done.
    Established(Channel),
    /// The peer's packet did not verify: turn the peer away.
    Rejected,
}

impl Setup {
    /// Opens the public-key exchange with a fresh key pair. The bytes
    /// returned are for the wire.
    pub fn start_rsa(name: Option<String>, peer_addr: String) -> (r: Result<(Setup, Vec<u8>), ProtocolError>)
        ensures
            r matches Ok((s, w)) ==> (s matches Setup::AwaitingPublicKey { own_key, name: n, peer_addr: a }
                && n == name && a@ == peer_addr@ && key_offer(own_key@, w@) && modulus_bits_of(
                own_key@,
            ) == Some(RSA_KEY_BITS) && key_pair_consistent(own_key@)),
    {
        let own_key = PrivateKey::generate()?;
        Setup::start_rsa_with(own_key, name, peer_addr)
    }

    /// Opens the public-key exchange with the given key pair.
    pub fn start_rsa_with(own_key: PrivateKey, name: Option<String>, peer_addr: String) -> (r: Result<
        (Setup, Vec<u8>),
        ProtocolError,
    >)
        ensures
            r is Ok <==> (public_pem_of(own_key@) is Some && public_pem_of(own_key@)->0.len()
                <= C_INT_MAX && signature_of(
                own_key@,
                public_pem_of(own_key@)->0,
            ) is Some && public_pem_of(own_key@)->0.len() <= u32::MAX && signature_of(
                own_key@,
                public_pem_of(own_key@)->0,
            )->0.len() <= u32::MAX),
            r matches Ok((s, w)) ==> (s matches Setup::AwaitingPublicKey { own_key: k, name: n, peer_addr: a }
                && k@ == own_key@ && n == name && a@ == peer_addr@ && key_offer(own_key@, w@)),
    {
        let handshake = RsaHandshake::new(&own_key)?;
        let packet = handshake.into_packet(&own_key)?;
        let wire = match packet.to_bytes() {
            Ok(w) => w,
            Err(e) => {
                return Err(ProtocolError::IoError(e));
            },
        };
        Ok((Setup::AwaitingPublicKey { own_key, name, peer_addr }, wire))
    }

    /// Opens the session-key exchange with keys known from before: a fresh
    /// session key is ours to receive with, and is offered to the peer under
    /// its public key, signed with our private key. No key pair is made.
    pub fn start_aes(desc: ChannelDesc) -> (r: Result<(Setup, Vec<u8>), ProtocolError>)
        ensures
            r matches Ok((s, w)) ==> (s matches Setup::AwaitingSessionKey { desc: d, receive_key }
                && d == desc && receive_key.wf() && session_offer(
                desc.spec_own_key(),
                desc.spec_peer_key(),
                receive_key@,
                w@,
            )),
    {
        let receive_key = match AesKey::generate() {
            Ok(k) => k,
            Err(e) => {
                return Err(ProtocolError::OpenSSLError(e));
            },
        };
        let handshake = AesHandshake::new(&receive_key, desc.peer_key())?;
        let packet = handshake.into_packet(desc.own_key())?;
        let wire = match packet.to_bytes() {
            Ok(w) => w,
            Err(e) => {
                return Err(ProtocolError::IoError(e));
            },
        };
        Ok((Setup::AwaitingSessionKey { desc, receive_key }, wire))
    }

    /// Takes the peer's packet. A public key is accepted only where the
    /// packet is signed with that very key; a session key only where the
    /// packet is signed with the peer's known key. Otherwise the peer is
    /// rejected, which is no error.
    pub fn on_packet(self, packet: Packet) -> (r: Result<Step, ProtocolError>)
        requires
            packet.wf(),
        ensures
            match self {
                Setup::AwaitingPublicKey { own_key, name, peer_addr } => {
                    &&& (r matches Ok(Step::Rejected)) <==> (packet@.0.len() > C_INT_MAX
                        || !signature_valid(packet@.0, packet@.0, packet@.1))
                    &&& !(r matches Ok(Step::Established(_)))
                    &&& r matches Ok(Step::Send(s, w)) ==> (s matches Setup::AwaitingSessionKey {
                        desc,
                        receive_key,
                    } && desc.spec_own_key() == own_key@ && desc.spec_peer_key() == packet@.0
                        && desc.spec_name() == chosen_name(name, peer_addr@) && desc.spec_last_addr()
                        == peer_addr@ && receive_key.wf() && session_offer(
                        own_key@,
                        packet@.0,
                        receive_key@,
                        w@,
                    ))
                },
                Setup::AwaitingSessionKey { desc, receive_key } => {
                    &&& (r matches Ok(Step::Rejected)) <==> !signature_valid(
                        desc.spec_peer_key(),
                        packet@.0,
                        packet@.1,
                    )
                    &&& !(r matches Ok(Step::Send(_, _)))
                    &&& signature_valid(desc.spec_peer_key(), packet@.0, packet@.1) ==> (r is Ok <==> (
                    rsa_decrypted(desc.spec_own_key(), packet@.0) matches Some(k) && k.len()
                        == AES_KEY_SIZE))
                    &&& r matches Ok(Step::Established(c)) ==> c.spec_desc() == desc
                        && c.spec_receive_key() == receive_key@ && c.spec_send_key()
                        == rsa_decrypted(desc.spec_own_key(), packet@.0)->0 && c.history()
                        =~= Seq::empty()
                },
            },
    {
        match self {
            Setup::AwaitingPublicKey { own_key, name, peer_addr } => {
                let their_key = match RsaHandshake::from_packet(&packet).public_key() {
                    Some(k) => k,
                    None => {
                        return Ok(Step::Rejected);
                    },
                };
                if !packet.verify(&their_key) {
                    return Ok(Step::Rejected);
                }
                let desc = ChannelDesc::for_peer(name, peer_addr, own_key, their_key);
                let (next, wire) = Setup::start_aes(desc)?;
                Ok(Step::Send(next, wire))
            },
            Setup::AwaitingSessionKey { desc, receive_key } => {
                if !packet.verify(desc.peer_key()) {
                    return Ok(Step::Rejected);
                }
                let send_key = AesHandshake::from_packet(&packet).decrypt_key(desc.own_key())?;
                Ok(Step::Established(Channel::new(desc, receive_key, send_key)))
            },
        }
    }
}

/// A public-key offer, read off the wire, is the sender's public key,
/// signed so that the key it carries verifies it: the reader's
/// `AwaitingPublicKey` step does not reject it.
pub proof fn lemma_key_offer_accepted(sender: Seq<u8>, wire: Seq<u8>, rest: Seq<u8>)
    requires
        key_offer(sender, wire),
        key_pair_consistent(sender),
    ensures
        ({
            let pem = public_pem_of(sender)->0;
            let sig = signature_of(sender, pem)->0;
            packet_read_result(wire + rest) == Ok::<(PacketView, nat), ErrorKind>(
                ((pem, sig, None), wire.len()),
            ) && signature_valid(pem, pem, sig)
        }),
{
    let pem = public_pem_of(sender)->0;
    let sig = signature_of(sender, pem)->0;
    lemma_packet_round_trip((pem, sig, None), rest);
}

/// A session-key offer made for the holder of `reader`, read off the wire,
/// verifies under the sender's public key and decrypts with `reader` to the
/// offered key, given a consistent key pair for `reader` (and, for the
/// signature, for the sender): the reader's `AwaitingSessionKey` step, whose descriptor
/// holds `reader` and the sender's public key, establishes the channel with
/// that key to send with.
pub proof fn lemma_session_offer_accepted(
    sender: Seq<u8>,
    reader: Seq<u8>,
    key: Seq<u8>,
    wire: Seq<u8>,
    rest: Seq<u8>,
)
    requires
        public_pem_of(reader) is Some,
        key_pair_consistent(reader),
        session_offer(sender, public_pem_of(reader)->0, key, wire),
    ensures
        exists|p: PacketView|
            #![trigger rsa_decrypted(reader, p.0)]
            packet_read_result(wire + rest) == Ok::<(PacketView, nat), ErrorKind>((p, wire.len()))
                && p.2 is None && (key_pair_consistent(sender) ==> (public_pem_of(sender) matches Some(
                s,
            ) ==> signature_valid(s, p.0, p.1))) && rsa_decrypted(reader, p.0) == Some(key),
{
    let c = choose|c: Seq<u8>|
        #![trigger signature_of(sender, c)]
        {
            let sig = signature_of(sender, c)->0;
            &&& signature_of(sender, c) is Some
            &&& packet_fits((c, sig, None))
            &&& wire == wire_of((c, sig, None))
            &&& (key_pair_consistent(sender) ==> (public_pem_of(sender) matches Some(p)
                ==> signature_valid(p, c, sig)))
            &&& forall|k: Seq<u8>|
                #[trigger] public_pem_of(k) == Some(public_pem_of(reader)->0) && key_pair_consistent(
                    k,
                ) ==> rsa_decrypted(k, c) == Some(key)
        };
    let sig = signature_of(sender, c)->0;
    let p = (c, sig, None::<Seq<u8>>);
    lemma_packet_round_trip(p, rest);
    assert(public_pem_of(reader) == Some(public_pem_of(reader)->0));
    assert(rsa_decrypted(reader, p.0) == Some(key));
    assert(packet_read_result(wire + rest) == Ok::<(PacketView, nat), ErrorKind>((p, wire.len()))
        && p.2 is None && (key_pair_consistent(sender) ==> (public_pem_of(sender) matches Some(s)
        ==> signature_valid(s, p.0, p.1))) && rsa_decrypted(reader, p.0) == Some(key));
}

} // verus!
