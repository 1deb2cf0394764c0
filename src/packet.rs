//! The packet envelope: signed data, optionally encrypted, framed as three buffers.
use vstd::prelude::*;

use crate::codec::{
    frame, lemma_read_frame, read_buffer, read_buffer_result, write_buffer, CodecError, Cursor,
    ErrorKind,
};
use crate::crypto::{
    aes_decrypt, aes_decrypted, aes_encrypt, aes_encrypted, random_bytes, sign_sha256,
    key_pair_consistent, public_pem_of, signature_of, signature_valid, too_long, verify_sha256, AesKey, PrivateKey, PublicKey, AES_IV_SIZE,
    C_INT_MAX,
};
use crate::error::ProtocolError;

verus! {

/// A packet as a value: data, signature, and the initialisation vector of
/// an encrypted packet.
pub type PacketView = (Seq<u8>, Seq<u8>, Option<Seq<u8>>);

/// The bytes that stand for the initialisation vector on the wire: none
/// when the packet is not encrypted.
pub open spec fn iv_bytes(iv: Option<Seq<u8>>) -> Seq<u8> {
    match iv {
        Some(v) => v,
        None => Seq::empty(),
    }
}

/// A well-formed packet: an initialisation vector, if any, is one block long.
pub open spec fn packet_wf(p: PacketView) -> bool {
    p.2 matches Some(v) ==> v.len() == AES_IV_SIZE
}

/// Whether every part of the packet fits a length prefix.
pub open spec fn packet_fits(p: PacketView) -> bool {
    p.0.len() <= u32::MAX && p.1.len() <= u32::MAX
}

/// The data and signature of an encrypted packet, decrypted under `key`.
pub open spec fn opened(key: Seq<u8>, p: PacketView) -> Option<(Seq<u8>, Seq<u8>)> {
    match p.2 {
        None => None,
        Some(_) if !packet_fits_cipher(p) => None,
        Some(iv) => match (aes_decrypted(key, iv, p.0), aes_decrypted(key, iv, p.1)) {
            (Some(d), Some(s)) => Some((d, s)),
            _ => None,
        },
    }
}

/// Whether data and signature leave room for a block of padding within
/// what OpenSSL's ciphers take.
pub open spec fn packet_fits_encryption(p: PacketView) -> bool {
    p.0.len() <= C_INT_MAX - AES_IV_SIZE && p.1.len() <= C_INT_MAX - AES_IV_SIZE
}

/// Whether data and signature are short enough for OpenSSL's ciphers.
pub open spec fn packet_fits_cipher(p: PacketView) -> bool {
    p.0.len() <= C_INT_MAX && p.1.len() <= C_INT_MAX
}

/// The packet on the wire: data, signature and initialisation vector, each
/// as a length-prefixed buffer.
pub open spec fn wire_of(p: PacketView) -> Seq<u8> {
    frame(p.0) + frame(p.1) + frame(iv_bytes(p.2))
}

/// What reading one packet from `s` gives: the packet and the number of
/// bytes consumed, or the kind of failure.
pub open spec fn packet_read_result(s: Seq<u8>) -> Result<(PacketView, nat), ErrorKind> {
    match read_buffer_result(s) {
        Err(e) => Err(e),
        Ok((d, a)) => match read_buffer_result(s.subrange(a as int, s.len() as int)) {
            Err(e) => Err(e),
            Ok((g, b)) => match read_buffer_result(s.subrange((a + b) as int, s.len() as int)) {
                Err(e) => Err(e),
                Ok((v, c)) => if v.len() == 0 {
                    Ok(((d, g, None), (a + b + c) as nat))
                } else if v.len() == AES_IV_SIZE {
                    Ok(((d, g, Some(v)), (a + b + c) as nat))
                } else {
                    Err(ErrorKind::InvalidData)
                },
            },
        },
    }
}

/// Structured data carrier. Each packet is signed, and optionally
/// encrypted; an encrypted packet carries its initialisation vector.
pub struct Packet {
    data: Vec<u8>,
    signature: Vec<u8>,
    iv: Option<Vec<u8>>,
}

impl View for Packet {
    type V = PacketView;

    open spec fn view(&self) -> PacketView {
        self.parts()
    }
}

impl Packet {
    pub closed spec fn parts(&self) -> PacketView {
        (
            self.data@,
            self.signature@,
            match self.iv {
                Some(v) => Some(v@),
                None => None,
            },
        )
    }

    pub open spec fn wf(&self) -> bool {
        packet_wf(self@)
    }

    /// Creates a packet holding `data`, signed with the private key.
    pub fn from_data(data: Vec<u8>, private_key: &PrivateKey) -> (r: Result<Packet, ProtocolError>)
        ensures
            r is Ok <==> signature_of(private_key@, data@) is Some,
            r is Err ==> (r matches Err(ProtocolError::OpenSSLError(_))),
            r matches Ok(p) ==> p.wf() && p@ == (
                data@,
                signature_of(private_key@, data@)->0,
                None::<Seq<u8>>,
            ),
            r matches Ok(p) ==> (key_pair_consistent(private_key@) ==> (public_pem_of(
                private_key@,
            ) matches Some(k) ==> signature_valid(k, p@.0, p@.1))),
    {
        match sign_sha256(private_key.pem(), data.as_slice()) {
            Ok(signature) => Ok(Packet { data, signature, iv: None }),
            Err(e) => Err(ProtocolError::OpenSSLError(e)),
        }
    }

    /// A packet made of its parts, where the initialisation vector, if
    /// any, is one block long.
    pub fn from_parts(data: Vec<u8>, signature: Vec<u8>, iv: Option<Vec<u8>>) -> (r: Option<Packet>)
        ensures
            r is Some <==> (iv matches Some(v) ==> v@.len() == AES_IV_SIZE),
            r matches Some(p) ==> p.wf() && p@.0 == data@ && p@.1 == signature@ && p@.2 == (
            match iv {
                Some(v) => Some(v@),
                None => None::<Seq<u8>>,
            }),
    {
        match iv {
            Some(v) => {
                if v.len() == AES_IV_SIZE {
                    Some(Packet { data, signature, iv: Some(v) })
                } else {
                    None
                }
            },
            None => Some(Packet { data, signature, iv: None }),
        }
    }

    /// The carried data.
    pub fn data(&self) -> (r: &[u8])
        ensures
            r@ == self@.0,
    {
        self.data.as_slice()
    }

    /// The signature, encrypted along with the data where the packet is.
    pub fn signature(&self) -> (r: &[u8])
        ensures
            r@ == self@.1,
    {
        self.signature.as_slice()
    }

    /// Whether the packet is encrypted.
    pub fn is_encrypted(&self) -> (r: bool)
        ensures
            r == (self@.2 is Some),
    {
        self.iv.is_some()
    }

    /// The initialisation vector of an encrypted packet.
    pub fn iv(&self) -> (r: Option<&[u8]>)
        ensures
            r is Some <==> self@.2 is Some,
            r matches Some(v) ==> self@.2 == Some(v@),
    {
        match &self.iv {
            Some(v) => Some(v.as_slice()),
            None => None,
        }
    }

    /// Reads a packet: three buffers, the last one empty where the packet
    /// is not encrypted.
    pub fn from_reader(reader: &mut Cursor) -> (r: Result<Packet, CodecError>)
        requires
            old(reader).wf(),
        ensures
            final(reader).wf(),
            final(reader).content() == old(reader).content(),
            match packet_read_result(old(reader).remaining()) {
                Ok((p, used)) => r matches Ok(q) && q@ == p && q.wf() && final(reader).position()
                    == old(reader).position() + used,
                Err(e) => r matches Err(err) && err.kind == e,
            },
    {
        let ghost s = reader.remaining();
        let ghost p0 = reader.position();
        let data = read_buffer(reader)?;
        let ghost a = (reader.position() - p0) as nat;
        assert(reader.remaining() =~= s.subrange(a as int, s.len() as int));
        let signature = read_buffer(reader)?;
        let ghost b = (reader.position() - p0 - a) as nat;
        assert(reader.remaining() =~= s.subrange((a + b) as int, s.len() as int));
        let potential_iv = read_buffer(reader)?;
        if potential_iv.len() == 0 {
            Ok(Packet { data, signature, iv: None })
        } else if potential_iv.len() == AES_IV_SIZE {
            Ok(Packet { data, signature, iv: Some(potential_iv) })
        } else {
            Err(CodecError { kind: ErrorKind::InvalidData })
        }
    }

    /// Writes the packet: data, signature and initialisation vector, each as
    /// a buffer, an empty one where the packet is not encrypted.
    pub fn to_writer(&self, writer: &mut Vec<u8>) -> (r: Result<(), CodecError>)
        requires
            self.wf(),
        ensures
            packet_fits(self@) ==> r is Ok && final(writer)@ == old(writer)@ + wire_of(self@),
            !packet_fits(self@) ==> (r matches Err(e) && e.kind == ErrorKind::InvalidInput),
    {
        write_buffer(writer, self.data.as_slice())?;
        write_buffer(writer, self.signature.as_slice())?;
        let empty: Vec<u8> = Vec::new();
        match &self.iv {
            Some(iv) => write_buffer(writer, iv.as_slice())?,
            None => write_buffer(writer, empty.as_slice())?,
        }
        assert(writer@ =~= old(writer)@ + wire_of(self@));
        Ok(())
    }

    /// The packet as bytes on the wire.
    pub fn to_bytes(&self) -> (r: Result<Vec<u8>, CodecError>)
        requires
            self.wf(),
        ensures
            packet_fits(self@) ==> (r matches Ok(v) && v@ == wire_of(self@)),
            !packet_fits(self@) ==> (r matches Err(e) && e.kind == ErrorKind::InvalidInput),
    {
        let mut out: Vec<u8> = Vec::new();
        self.to_writer(&mut out)?;
        assert(out@ =~= wire_of(self@));
        Ok(out)
    }

    /// Encrypts data and signature, each on its own, under the key and one
    /// fresh random initialisation vector, which the packet then carries.
    /// On failure the packet is unchanged.
    pub fn encrypt(&mut self, other_aes_key: &AesKey) -> (r: Result<(), ProtocolError>)
        requires
            old(self).wf(),
        ensures
            final(self).wf(),
            r is Ok ==> (final(self)@.2 matches Some(iv) && aes_encrypted(
                other_aes_key@,
                iv,
                old(self)@.0,
            ) == Some(final(self)@.0) && aes_encrypted(other_aes_key@, iv, old(self)@.1) == Some(
                final(self)@.1,
            )),
            r is Ok ==> packet_fits_cipher(final(self)@) && packet_fits(final(self)@),
            r is Ok ==> opened(other_aes_key@, final(self)@) == Some((old(self)@.0, old(self)@.1)),
            r is Err ==> final(self)@ == old(self)@,
            !packet_fits_encryption(old(self)@) ==> (r matches Err(ProtocolError::IoError(_))),
            packet_fits_encryption(old(self)@) ==> !(r matches Err(ProtocolError::IoError(_))),
    {
        if self.data.len() > C_INT_MAX - AES_IV_SIZE || self.signature.len() > C_INT_MAX
            - AES_IV_SIZE {
            return Err(too_long());
        }
        let iv = match random_bytes(AES_IV_SIZE) {
            Ok(iv) => iv,
            Err(e) => {
                return Err(ProtocolError::OpenSSLError(e));
            },
        };
        self.encrypt_with_iv(other_aes_key, iv)
    }

    /// Encrypts data and signature, each on its own, under the key and the
    /// given initialisation vector, which the packet then carries. On
    /// failure the packet is unchanged.
    pub fn encrypt_with_iv(&mut self, key: &AesKey, iv: Vec<u8>) -> (r: Result<(), ProtocolError>)
        requires
            old(self).wf(),
            iv@.len() == AES_IV_SIZE,
        ensures
            final(self).wf(),
            r is Ok <==> (packet_fits_encryption(old(self)@) && aes_encrypted(
                key@,
                iv@,
                old(self)@.0,
            ) is Some && aes_encrypted(key@, iv@, old(self)@.1) is Some),
            r is Ok ==> final(self)@ == (
                aes_encrypted(key@, iv@, old(self)@.0)->0,
                aes_encrypted(key@, iv@, old(self)@.1)->0,
                Some(iv@),
            ),
            r is Ok ==> packet_fits_cipher(final(self)@) && packet_fits(final(self)@),
            r is Ok ==> opened(key@, final(self)@) == Some((old(self)@.0, old(self)@.1)),
            r is Err ==> final(self)@ == old(self)@,
            !packet_fits_encryption(old(self)@) ==> (r matches Err(ProtocolError::IoError(_))),
            packet_fits_encryption(old(self)@) ==> !(r matches Err(ProtocolError::IoError(_))),
    {
        if self.data.len() > C_INT_MAX - AES_IV_SIZE || self.signature.len() > C_INT_MAX
            - AES_IV_SIZE {
            return Err(too_long());
        }
        let k = key.as_bytes();
        let data = match aes_encrypt(k, iv.as_slice(), self.data.as_slice()) {
            Ok(d) => d,
            Err(e) => {
                return Err(ProtocolError::OpenSSLError(e));
            },
        };
        let signature = match aes_encrypt(k, iv.as_slice(), self.signature.as_slice()) {
            Ok(s) => s,
            Err(e) => {
                return Err(ProtocolError::OpenSSLError(e));
            },
        };
        self.data = data;
        self.signature = signature;
        self.iv = Some(iv);
        Ok(())
    }

    /// Decrypts data and signature under the key and the carried
    /// initialisation vector. A packet without one is refused. On failure
    /// the packet is unchanged.
    pub fn decrypt(&mut self, our_aes_key: &AesKey) -> (r: Result<(), ProtocolError>)
        requires
            old(self).wf(),
        ensures
            final(self).wf(),
            old(self)@.2 is None ==> (r matches Err(ProtocolError::Unencrypted)),
            match opened(our_aes_key@, old(self)@) {
                None => r is Err && final(self)@ == old(self)@,
                Some((d, g)) => r is Ok && final(self)@ == (d, g, old(self)@.2),
            },
    {
        let iv = match &self.iv {
            Some(iv) => iv.as_slice(),
            None => {
                return Err(ProtocolError::Unencrypted);
            },
        };
        if self.data.len() > C_INT_MAX || self.signature.len() > C_INT_MAX {
            return Err(too_long());
        }
        let key = our_aes_key.as_bytes();
        let data = match aes_decrypt(key, iv, self.data.as_slice()) {
            Ok(d) => d,
            Err(e) => {
                return Err(ProtocolError::OpenSSLError(e));
            },
        };
        let signature = match aes_decrypt(key, iv, self.signature.as_slice()) {
            Ok(s) => s,
            Err(e) => {
                return Err(ProtocolError::OpenSSLError(e));
            },
        };
        self.data = data;
        self.signature = signature;
        Ok(())
    }

    /// Checks the signature against the data, under the public key.
    pub fn verify(&self, public_key: &PublicKey) -> (r: bool)
        ensures
            r == signature_valid(public_key@, self@.0, self@.1),
    {
        verify_sha256(public_key.pem(), self.data.as_slice(), self.signature.as_slice())
    }
}

/// A packet written and read back is the same packet, and the read consumes
/// exactly its bytes, whatever follows them.
pub proof fn lemma_packet_round_trip(p: PacketView, rest: Seq<u8>)
    requires
        packet_wf(p),
        packet_fits(p),
    ensures
        packet_read_result(wire_of(p) + rest) == Ok::<(PacketView, nat), ErrorKind>(
            (p, wire_of(p).len()),
        ),
{
    let s = wire_of(p) + rest;
    let fd = frame(p.0);
    let fs = frame(p.1);
    let fi = frame(iv_bytes(p.2));
    assert(s =~= fd + (fs + fi + rest));
    lemma_read_frame(p.0, fs + fi + rest);
    let a = fd.len();
    assert(s.subrange(a as int, s.len() as int) =~= fs + (fi + rest));
    lemma_read_frame(p.1, fi + rest);
    let b = fs.len();
    assert(s.subrange((a + b) as int, s.len() as int) =~= fi + rest);
    lemma_read_frame(iv_bytes(p.2), rest);
    if p.2 is None {
        assert(iv_bytes(p.2).len() == 0);
    }
}

/// A packet sealed with a private key, written and read back, carries the
/// same data and signature and is not encrypted, so it verifies against a
/// public key exactly when the freshly sealed one does.
pub proof fn lemma_sealed_round_trip(payload: Seq<u8>, private_pem: Seq<u8>, rest: Seq<u8>)
    requires
        signature_of(private_pem, payload) is Some,
        payload.len() <= u32::MAX,
        signature_of(private_pem, payload)->0.len() <= u32::MAX,
    ensures
        ({
            let sealed = (payload, signature_of(private_pem, payload)->0, None::<Seq<u8>>);
            packet_read_result(wire_of(sealed) + rest) matches Ok((read, used)) && read == sealed
                && used == wire_of(sealed).len() && forall|public_pem: Seq<u8>|
                signature_valid(public_pem, read.0, read.1) == signature_valid(
                    public_pem,
                    payload,
                    signature_of(private_pem, payload)->0,
                )
        }),
{
    let sealed = (payload, signature_of(private_pem, payload)->0, None::<Seq<u8>>);
    lemma_packet_round_trip(sealed, rest);
}

} // verus!
