//! Established channels: their keys, their history, and the rules by which
//! inbound messages are accepted.
use vstd::prelude::*;

use crate::crypto::{key_pair_consistent, public_pem_of, signature_of, signature_valid, AesKey, PrivateKey, PublicKey};
use crate::error::ProtocolError;
use crate::message::{message_decoding, message_encoding, Message, MessageView};
use crate::codec::ErrorKind;
use crate::packet::{
    lemma_packet_round_trip, opened, packet_fits, packet_read_result, packet_wf, wire_of, Packet,
    PacketView,
};

verus! {

/// What a channel can be rebuilt from: its name, the address it last had,
/// our private key and the peer's public key.
#[derive(Clone, Debug)]
pub struct ChannelDesc {
    name: String,
    last_addr: String,
    /// Our key, for signing and for decrypting the session key we are sent.
    our_rsa_private_key: PrivateKey,
    /// The peer's key, for checking signatures and encrypting the session key we send.
    their_rsa_public_key: PublicKey,
}

impl ChannelDesc {
    pub closed spec fn spec_name(&self) -> Seq<char> {
        self.name@
    }

    pub closed spec fn spec_last_addr(&self) -> Seq<char> {
        self.last_addr@
    }

    pub closed spec fn spec_own_key(&self) -> Seq<u8> {
        self.our_rsa_private_key@
    }

    pub closed spec fn spec_peer_key(&self) -> Seq<u8> {
        self.their_rsa_public_key@
    }

    /// A descriptor of the given parts.
    pub fn new(
        name: String,
        last_addr: String,
        our_rsa_private_key: PrivateKey,
        their_rsa_public_key: PublicKey,
    ) -> (r: ChannelDesc)
        ensures
            r.spec_name() == name@,
            r.spec_last_addr() == last_addr@,
            r.spec_own_key() == our_rsa_private_key@,
            r.spec_peer_key() == their_rsa_public_key@,
    {
        ChannelDesc { name, last_addr, our_rsa_private_key, their_rsa_public_key }
    }

    /// The name of the channel.
    pub fn name(&self) -> (r: &str)
        ensures
            r@ == self.spec_name(),
    {
        self.name.as_str()
    }

    /// The address that the channel last had.
    pub fn last_addr(&self) -> (r: &str)
        ensures
            r@ == self.spec_last_addr(),
    {
        self.last_addr.as_str()
    }

    /// Our private key.
    pub fn own_key(&self) -> (r: &PrivateKey)
        ensures
            r@ == self.spec_own_key(),
    {
        &self.our_rsa_private_key
    }

    /// The peer's public key.
    pub fn peer_key(&self) -> (r: &PublicKey)
        ensures
            r@ == self.spec_peer_key(),
    {
        &self.their_rsa_public_key
    }

    /// A descriptor for a channel to the peer at `peer_addr`, named as asked
    /// or else after that address.
    pub fn for_peer(
        name: Option<String>,
        peer_addr: String,
        our_rsa_private_key: PrivateKey,
        their_rsa_public_key: PublicKey,
    ) -> (r: ChannelDesc)
        ensures
            r.spec_name() == chosen_name(name, peer_addr@),
            r.spec_last_addr() == peer_addr@,
            r.spec_own_key() == our_rsa_private_key@,
            r.spec_peer_key() == their_rsa_public_key@,
    {
        let name = match name {
            Some(n) => n,
            None => peer_addr.clone(),
        };
        ChannelDesc::new(name, peer_addr, our_rsa_private_key, their_rsa_public_key)
    }

    /// Renames the channel.
    pub fn rename(&mut self, new: String)
        ensures
            final(self).spec_name() == new@,
            final(self).spec_last_addr() == old(self).spec_last_addr(),
            final(self).spec_own_key() == old(self).spec_own_key(),
            final(self).spec_peer_key() == old(self).spec_peer_key(),
    {
        self.name = new;
    }

    /// Changes the address of the channel.
    pub fn change_addr(&mut self, addr: String)
        ensures
            final(self).spec_last_addr() == addr@,
            final(self).spec_name() == old(self).spec_name(),
            final(self).spec_own_key() == old(self).spec_own_key(),
            final(self).spec_peer_key() == old(self).spec_peer_key(),
    {
        self.last_addr = addr;
    }
}

/// The name a channel takes: the one asked for, else the peer's address.
pub open spec fn chosen_name(name: Option<String>, peer_addr: Seq<char>) -> Seq<char> {
    match name {
        Some(n) => n@,
        None => peer_addr,
    }
}

/// What became of an inbound packet that opened and verified.
#[derive(Clone, Copy, Debug, PartialEq, Eq, Structural)]
pub enum Received {
    /// Stored in the history.
    Accepted,
    /// Dropped: stamped after the moment it arrived.
    Future,
    /// Dropped: stamped before the last message accepted from the peer.
    Stale,
    /// Dropped: it verified, but holds no message.
    Malformed,
}

/// The timestamp of the last message of the history that came from the
/// peer: the last one accepted.
pub open spec fn last_inbound(history: Seq<MessageView>) -> Option<i64>
    decreases history.len(),
{
    if history.len() == 0 {
        None
    } else if !history.last().2 {
        Some(history.last().1)
    } else {
        last_inbound(history.drop_last())
    }
}

/// Whether an inbound message stamped `t`, arriving at `now`, joins a
/// history: it must not come from the future, nor from before the last
/// message accepted from the peer.
pub open spec fn admission(history: Seq<MessageView>, t: i64, now: i64) -> Received {
    if t > now {
        Received::Future
    } else {
        match last_inbound(history) {
            Some(l) if l > t => Received::Stale,
            _ => Received::Accepted,
        }
    }
}

/// The messages from the peer stand in the history in timestamp order.
pub open spec fn inbound_ordered(history: Seq<MessageView>) -> bool {
    forall|i: int, j: int|
        #![trigger history[i], history[j]]
        0 <= i < j < history.len() && !history[i].2 && !history[j].2 ==> history[i].1
            <= history[j].1
}

/// Whether `wire` holds a packet that opens under `key` to the encoded
/// message (which decodes back to it) and its signature made with `own`; where `own` is a consistent
/// key pair, its public half verifies that signature.
pub open spec fn sealed_wire(own: Seq<u8>, key: Seq<u8>, m: MessageView, wire: Seq<u8>) -> bool {
    let plain = message_encoding(m.0, m.1)->0;
    let sig = signature_of(own, plain)->0;
    &&& message_encoding(m.0, m.1) is Some
    &&& message_decoding(plain) == Some((m.0, m.1))
    &&& signature_of(own, plain) is Some
    &&& (key_pair_consistent(own) ==> (public_pem_of(own) matches Some(k) ==> signature_valid(
        k,
        plain,
        sig,
    )))
    &&& exists|p: PacketView|
        #![trigger wire_of(p)]
        wire == wire_of(p) && p.2 is Some && packet_wf(p) && packet_fits(p) && opened(key, p)
            == Some((plain, sig))
}

/// A channel for exchanging messages with one peer.
pub struct Channel {
    desc: ChannelDesc,
    /// Ours: the peer encrypts under it, we decrypt.
    receive_key: AesKey,
    /// The peer's: we encrypt under it.
    send_key: AesKey,
    messages: Vec<Message>,
}

impl Channel {
    pub closed spec fn spec_desc(&self) -> ChannelDesc {
        self.desc
    }

    pub closed spec fn spec_receive_key(&self) -> Seq<u8> {
        self.receive_key@
    }

    pub closed spec fn spec_send_key(&self) -> Seq<u8> {
        self.send_key@
    }

    /// The history, oldest first.
    pub closed spec fn history(&self) -> Seq<MessageView> {
        self.messages@.map_values(|m: Message| m@)
    }

    /// A channel with an empty history, once both keys are known.
    pub fn new(desc: ChannelDesc, receive_key: AesKey, send_key: AesKey) -> (r: Channel)
        ensures
            r.spec_desc() == desc,
            r.spec_receive_key() == receive_key@,
            r.spec_send_key() == send_key@,
            r.history() == Seq::<MessageView>::empty(),
    {
        let r = Channel { desc, receive_key, send_key, messages: Vec::new() };
        assert(r.history() =~= Seq::<MessageView>::empty());
        r
    }

    /// The name of the channel.
    pub fn name(&self) -> (r: &str)
        ensures
            r@ == self.spec_desc().spec_name(),
    {
        self.desc.name()
    }

    /// What the channel can be rebuilt from.
    pub fn desc(&self) -> (r: &ChannelDesc)
        ensures
            *r == self.spec_desc(),
    {
        &self.desc
    }

    /// The history, oldest first.
    pub fn messages(&self) -> (r: &Vec<Message>)
        ensures
            r@.map_values(|m: Message| m@) == self.history(),
    {
        &self.messages
    }

    /// How many messages the history holds.
    pub fn message_count(&self) -> (r: usize)
        ensures
            r == self.history().len(),
    {
        self.messages.len()
    }

    /// The timestamp of the last message accepted from the peer.
    pub fn last_inbound_timestamp(&self) -> (r: Option<i64>)
        ensures
            r == last_inbound(self.history()),
    {
        let ghost h = self.history();
        let mut i: usize = self.messages.len();
        proof {
            assert(h.take(i as int) =~= h);
        }
        while i > 0 && self.messages[i - 1].is_ours()
            invariant
                0 <= i <= self.messages@.len(),
                h == self.history(),
                last_inbound(h.take(i as int)) == last_inbound(h),
            decreases i,
        {
            proof {
                let t = h.take(i as int);
                assert(t.last() == self.messages@[i - 1]@);
                assert(t.drop_last() =~= h.take(i - 1));
            }
            i -= 1;
        }
        if i == 0 {
            proof {
                assert(h.take(0) =~= Seq::<MessageView>::empty());
            }
            None
        } else {
            proof {
                assert(h.take(i as int).last() == self.messages@[i - 1]@);
            }
            Some(self.messages[i - 1].timestamp())
        }
    }

    /// What becomes of an inbound message stamped `t` that arrives at `now`.
    pub fn admission_of(&self, t: i64, now: i64) -> (r: Received)
        ensures
            r == admission(self.history(), t, now),
    {
        if t > now {
            return Received::Future;
        }
        match self.last_inbound_timestamp() {
            Some(l) => {
                if l > t {
                    Received::Stale
                } else {
                    Received::Accepted
                }
            },
            None => Received::Accepted,
        }
    }

    /// Seals, encrypts and frames a message of ours, and records it in the
    /// history; the bytes returned are for the wire. The record is made
    /// before the caller writes them, so a failed write keeps it. A message
    /// that could not be sealed or encrypted is not recorded.
    pub fn send_message(&mut self, message: Message) -> (r: Result<Vec<u8>, ProtocolError>)
        ensures
            final(self).spec_desc() == old(self).spec_desc(),
            final(self).spec_receive_key() == old(self).spec_receive_key(),
            final(self).spec_send_key() == old(self).spec_send_key(),
            r is Err ==> final(self).history() == old(self).history(),
            r matches Ok(w) ==> final(self).history() == old(self).history().push(message@)
                && sealed_wire(
                old(self).spec_desc().spec_own_key(),
                old(self).spec_send_key(),
                message@,
                w@,
            ),
            message_encoding(message@.0, message@.1) is None ==> (r matches Err(
                ProtocolError::SerializationError(_),
            )),
            (message_encoding(message@.0, message@.1) matches Some(b) && signature_of(
                old(self).spec_desc().spec_own_key(),
                b,
            ) is None) ==> (r matches Err(ProtocolError::OpenSSLError(_))),
    {
        let plain = match message.serialize() {
            Ok(p) => p,
            Err(e) => {
                return Err(e);
            },
        };
        let mut packet = match Packet::from_data(plain, self.desc.own_key()) {
            Ok(p) => p,
            Err(e) => {
                return Err(e);
            },
        };
        packet.encrypt(&self.send_key)?;
        let w = match packet.to_bytes() {
            Ok(w) => w,
            Err(e) => {
                return Err(ProtocolError::IoError(e));
            },
        };
        let ghost hist = self.history();
        self.messages.push(message);
        assert(self.history() =~= hist.push(message@));
        proof {
            let p = packet@;
            assert(wire_of(p) == w@);
        }
        Ok(w)
    }

    /// Opens one packet from the peer: decrypts it under our session key,
    /// checks its signature against the peer's key and decodes the message,
    /// which is then the peer's. A forged packet is an error; a packet that
    /// verifies but holds no message gives `None`.
    pub fn open(&self, packet: Packet) -> (r: Result<Option<Message>, ProtocolError>)
        requires
            packet.wf(),
        ensures
            match opened(self.spec_receive_key(), packet@) {
                None => r is Err,
                Some((d, s)) => if !signature_valid(self.spec_desc().spec_peer_key(), d, s) {
                    r matches Err(ProtocolError::VerificationError)
                } else {
                    match message_decoding(d) {
                        None => r matches Ok(None),
                        Some((c, t)) => r matches Ok(Some(m)) && m@ == (c, t, false),
                    }
                },
            },
    {
        let mut packet = packet;
        packet.decrypt(&self.receive_key)?;
        if !packet.verify(self.desc.peer_key()) {
            return Err(ProtocolError::VerificationError);
        }
        match Message::deserialize(packet.data()) {
            Ok(m) => Ok(Some(m)),
            Err(_) => Ok(None),
        }
    }

    /// Stores a message of the peer that arrived at `now`, unless it comes
    /// from the future or from before the last message accepted from the
    /// peer.
    pub fn accept_inbound(&mut self, message: Message, now: i64) -> (r: Received)
        requires
            !message@.2,
        ensures
            final(self).spec_desc() == old(self).spec_desc(),
            final(self).spec_receive_key() == old(self).spec_receive_key(),
            final(self).spec_send_key() == old(self).spec_send_key(),
            r == admission(old(self).history(), message@.1, now),
            final(self).history() == (if r == Received::Accepted {
                old(self).history().push(message@)
            } else {
                old(self).history()
            }),
    {
        let verdict = self.admission_of(message.timestamp(), now);
        if verdict != Received::Accepted {
            return verdict;
        }
        let ghost hist = self.history();
        self.messages.push(message);
        assert(self.history() =~= hist.push(message@));
        Received::Accepted
    }

    /// Takes in one packet from the peer that arrived at `now`: opens it,
    /// then stores the message unless it comes from the future or from
    /// before the last message accepted from the peer. A forged packet is an
    /// error; one that holds no message is dropped.
    pub fn receive(&mut self, packet: Packet, now: i64) -> (r: Result<Received, ProtocolError>)
        requires
            packet.wf(),
        ensures
            final(self).spec_desc() == old(self).spec_desc(),
            final(self).spec_receive_key() == old(self).spec_receive_key(),
            final(self).spec_send_key() == old(self).spec_send_key(),
            match opened(old(self).spec_receive_key(), packet@) {
                None => r is Err && final(self).history() == old(self).history(),
                Some((d, s)) => if !signature_valid(old(self).spec_desc().spec_peer_key(), d, s) {
                    r matches Err(ProtocolError::VerificationError) && final(self).history()
                        == old(self).history()
                } else {
                    match message_decoding(d) {
                        None => r == Ok::<Received, ProtocolError>(Received::Malformed)
                            && final(self).history() == old(self).history(),
                        Some((c, t)) => r == Ok::<Received, ProtocolError>(
                            admission(old(self).history(), t, now),
                        ) && final(self).history() == (if admission(old(self).history(), t, now)
                            == Received::Accepted {
                            old(self).history().push((c, t, false))
                        } else {
                            old(self).history()
                        }),
                    }
                },
            },
    {
        match self.open(packet)? {
            Some(message) => Ok(self.accept_inbound(message, now)),
            None => Ok(Received::Malformed),
        }
    }
}

impl PartialEq for Channel {
    fn eq(&self, other: &Channel) -> (r: bool)
        ensures
            r == (self.spec_desc().spec_name() == other.spec_desc().spec_name()),
    {
        self.desc.name == other.desc.name
    }
}

impl vstd::std_specs::cmp::PartialEqSpecImpl for Channel {
    open spec fn obeys_eq_spec() -> bool {
        true
    }

    open spec fn eq_spec(&self, other: &Channel) -> bool {
        self.spec_desc().spec_name() == other.spec_desc().spec_name()
    }
}

/// An inbound message stamped before the last message accepted from the
/// peer, or after the moment it arrives, is never stored; any other is.
pub proof fn lemma_admission(history: Seq<MessageView>, t: i64, now: i64)
    ensures
        t > now ==> admission(history, t, now) == Received::Future,
        t <= now && (last_inbound(history) matches Some(l) && t < l) ==> admission(history, t, now)
            == Received::Stale,
        t <= now && (last_inbound(history) matches Some(l) ==> l <= t) ==> admission(
            history,
            t,
            now,
        ) == Received::Accepted,
{
}

/// The last accepted message of the peer is the latest one of the peer.
proof fn lemma_last_inbound(history: Seq<MessageView>)
    ensures
        last_inbound(history) is None ==> forall|i: int|
            0 <= i < history.len() ==> (#[trigger] history[i]).2,
        last_inbound(history) matches Some(l) ==> exists|k: int|
            0 <= k < history.len() && !(#[trigger] history[k]).2 && history[k].1 == l && forall|
                i: int,
            |
                k < i < history.len() ==> (#[trigger] history[i]).2,
    decreases history.len(),
{
    if history.len() > 0 {
        let prefix = history.drop_last();
        lemma_last_inbound(prefix);
        let n = history.len() - 1;
        if history.last().2 {
            assert forall|i: int| 0 <= i < n implies history[i] == #[trigger] prefix[i] by {}
            if let Some(l) = last_inbound(prefix) {
                let k = choose|k: int|
                    0 <= k < prefix.len() && !(#[trigger] prefix[k]).2 && prefix[k].1 == l
                        && forall|i: int| k < i < prefix.len() ==> (#[trigger] prefix[i]).2;
                assert(history[k] == prefix[k]);
                assert forall|i: int| k < i < history.len() implies (#[trigger] history[i]).2 by {
                    if i < n {
                        assert(history[i] == prefix[i]);
                    }
                }
            } else {
                assert forall|i: int| 0 <= i < history.len() implies (#[trigger] history[i]).2 by {
                    if i < n {
                        assert(history[i] == prefix[i]);
                    }
                }
            }
        } else {
            assert(!history[n].2);
        }
    }
}

/// Neither our own messages nor the peer's accepted ones put the peer's
/// messages out of timestamp order, and an accepted message never comes
/// from after the moment it arrived.
pub proof fn lemma_inbound_order_kept(history: Seq<MessageView>, m: MessageView, now: i64)
    requires
        inbound_ordered(history),
    ensures
        m.2 ==> inbound_ordered(history.push(m)),
        !m.2 && admission(history, m.1, now) == Received::Accepted ==> inbound_ordered(
            history.push(m),
        ) && m.1 <= now,
{
    let h2 = history.push(m);
    lemma_last_inbound(history);
    if m.2 || admission(history, m.1, now) == Received::Accepted {
        assert forall|i: int, j: int|
            0 <= i < j < h2.len() && !(#[trigger] h2[i]).2 && !(#[trigger] h2[j]).2 implies h2[i].1
            <= h2[j].1 by {
            assert(h2[i] == history[i]);
            if j < history.len() {
                assert(h2[j] == history[j]);
            } else if !m.2 && admission(history, m.1, now) == Received::Accepted {
                assert(h2[j] == m);
                if let Some(l) = last_inbound(history) {
                    assert(l <= m.1);
                    let k = choose|k: int|
                        0 <= k < history.len() && !(#[trigger] history[k]).2 && history[k].1 == l
                            && forall|x: int| k < x < history.len() ==> (#[trigger] history[x]).2;
                    if i < k {
                        assert(history[i].1 <= history[k].1);
                    } else if i > k {
                        assert(history[i].2);
                    }
                } else {
                    assert(history[i].2);
                }
            }
        }
    }
}

/// What one end sends, the other end reads off the wire as a packet that
/// opens under the shared key, verifies under the sender's public key where
/// the sender's pair is consistent, and decodes to the message sent: its
/// `receive` then stores the content and timestamp as the peer's, as the
/// ordering rule allows.
pub proof fn lemma_sent_message_received(
    own: Seq<u8>,
    key: Seq<u8>,
    m: MessageView,
    wire: Seq<u8>,
    rest: Seq<u8>,
)
    requires
        sealed_wire(own, key, m, wire),
        key_pair_consistent(own),
        public_pem_of(own) is Some,
    ensures
        exists|p: PacketView|
            #![trigger opened(key, p)]
            {
                &&& packet_read_result(wire + rest) == Ok::<(PacketView, nat), ErrorKind>(
                    (p, wire.len()),
                )
                &&& packet_wf(p)
                &&& opened(key, p) matches Some((d, s)) && signature_valid(
                    public_pem_of(own)->0,
                    d,
                    s,
                ) && message_decoding(d) == Some((m.0, m.1))
            },
{
    let p = choose|p: PacketView|
        #![trigger wire_of(p)]
        wire == wire_of(p) && p.2 is Some && packet_wf(p) && packet_fits(p) && opened(key, p)
            == Some((message_encoding(m.0, m.1)->0, signature_of(own, message_encoding(m.0, m.1)->0)->0));
    lemma_packet_round_trip(p, rest);
    assert(opened(key, p) matches Some((d, s)) && signature_valid(public_pem_of(own)->0, d, s)
        && message_decoding(d) == Some((m.0, m.1)));
}

} // verus!
