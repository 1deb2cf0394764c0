//! Keys and the cryptographic operations of the protocol, carried out by OpenSSL.
//!
//! Keys are held as their PEM text, so that what the protocol computes with
//! them is a function of plain bytes.
use openssl::encrypt::{Decrypter, Encrypter};
use openssl::error::ErrorStack;
use openssl::hash::MessageDigest;
use openssl::pkey::PKey;
use openssl::rand::rand_bytes;
use openssl::rsa::{Padding, Rsa};
use openssl::sign::{Signer, Verifier};
use openssl::symm::{decrypt, encrypt, Cipher};
use vstd::prelude::*;
use vstd::slice::slice_to_vec;

use crate::codec::{CodecError, ErrorKind};
use crate::error::ProtocolError;

verus! {

/// Size of a fresh RSA modulus, in bits.
pub const RSA_KEY_BITS: u32 = 2048;

/// Size of a session key, in bytes (AES-256).
pub const AES_KEY_SIZE: usize = 32;

/// Size of an initialisation vector, in bytes (one AES block).
pub const AES_IV_SIZE: usize = 16;

/// The longest input that OpenSSL's C interface takes in one call.
pub const C_INT_MAX: usize = 2147483647;

#[verifier::external_type_specification]
#[verifier::external_body]
pub struct ExErrorStack(ErrorStack);

/// The PEM text of the public half of the private key whose PEM text is given.
pub uninterp spec fn public_pem_of(private_pem: Seq<u8>) -> Option<Seq<u8>>;

/// The SHA-256 signature of `data` under a private RSA key.
pub uninterp spec fn signature_of(private_pem: Seq<u8>, data: Seq<u8>) -> Option<Seq<u8>>;

/// Whether `signature` is a valid SHA-256 signature of `data` under a public key.
pub uninterp spec fn signature_valid(public_pem: Seq<u8>, data: Seq<u8>, signature: Seq<u8>) -> bool;

/// AES-256-CBC encryption, with padding.
pub uninterp spec fn aes_encrypted(key: Seq<u8>, iv: Seq<u8>, data: Seq<u8>) -> Option<Seq<u8>>;

/// AES-256-CBC decryption, with padding.
pub uninterp spec fn aes_decrypted(key: Seq<u8>, iv: Seq<u8>, data: Seq<u8>) -> Option<Seq<u8>>;

/// Whether the private key whose PEM text is given is an RSA key whose
/// parameters agree, as `RSA_check_key` tests them.
pub uninterp spec fn key_pair_consistent(private_pem: Seq<u8>) -> bool;

/// The size in bits of the modulus of the private key whose PEM text is given.
pub uninterp spec fn modulus_bits_of(private_pem: Seq<u8>) -> Option<u32>;

/// RSA decryption with OAEP padding.
pub uninterp spec fn rsa_decrypted(private_pem: Seq<u8>, data: Seq<u8>) -> Option<Seq<u8>>;

/// Relies on `Rsa::generate`, `PKey::from_rsa` and
/// `PKey::private_key_to_pem_pkcs8`: a fresh random key pair with a modulus
/// of the given size, written as PKCS#8 PEM text.
#[verifier::external_body]
pub(crate) fn generate_private_pem(bits: u32) -> (r: Result<Vec<u8>, ErrorStack>)
    ensures
        r matches Ok(p) ==> modulus_bits_of(p@) == Some(bits),
        r matches Ok(p) ==> key_pair_consistent(p@),
{
    PKey::from_rsa(Rsa::generate(bits)?)?.private_key_to_pem_pkcs8()
}

/// Relies on `PKey::private_key_from_pem_passphrase` with an empty
/// passphrase (encrypted text fails, never prompts) and
/// `PKey::public_key_to_pem`: the public half of a private key, a function
/// of the key alone.
#[verifier::external_body]
pub(crate) fn public_pem(private_pem: &[u8]) -> (r: Result<Vec<u8>, ErrorStack>)
    requires
        private_pem@.len() <= C_INT_MAX,
    ensures
        r is Ok <==> public_pem_of(private_pem@) is Some,
        r matches Ok(v) ==> v@ == public_pem_of(private_pem@)->0,
{
    PKey::private_key_from_pem_passphrase(private_pem, b"")?.public_key_to_pem()
}

/// Relies on `Signer::sign_oneshot_to_vec` with SHA-256 and an RSA key
/// (`PKey::rsa` refuses any other kind, and the PEM text is read with an
/// empty passphrase): PKCS#1 v1.5 signatures are a function of the key and
/// the data, and the `sign` module documents that the public half of a key
/// pair verifies them; this is claimed for keys that `RSA_check_key` finds
/// consistent.
#[verifier::external_body]
pub(crate) fn sign_sha256(private_pem: &[u8], data: &[u8]) -> (r: Result<Vec<u8>, ErrorStack>)
    requires
        private_pem@.len() <= C_INT_MAX,
    ensures
        r is Ok <==> signature_of(private_pem@, data@) is Some,
        r matches Ok(v) ==> v@ == signature_of(private_pem@, data@)->0,
        r matches Ok(v) ==> (key_pair_consistent(private_pem@) ==> (public_pem_of(private_pem@)
            matches Some(p) ==> signature_valid(p, data@, v@))),
{
    let key = PKey::from_rsa(PKey::private_key_from_pem_passphrase(private_pem, b"")?.rsa()?)?;
    Signer::new(MessageDigest::sha256(), &key)?.sign_oneshot_to_vec(data)
}

/// Relies on `Verifier::verify_oneshot` with SHA-256, the key read by
/// `PKey::public_key_from_pem_passphrase` with an empty passphrase. A key
/// that does not parse, or a failure inside OpenSSL, counts as an invalid
/// signature.
#[verifier::external_body]
pub(crate) fn verify_sha256(public_pem: &[u8], data: &[u8], signature: &[u8]) -> (r: bool)
    requires
        public_pem@.len() <= C_INT_MAX,
    ensures
        r == signature_valid(public_pem@, data@, signature@),
{
    match PKey::public_key_from_pem_passphrase(public_pem, b"") {
        Ok(key) => match Verifier::new(MessageDigest::sha256(), &key) {
            Ok(mut verifier) => verifier.verify_oneshot(signature, data).unwrap_or(false),
            Err(_) => false,
        },
        Err(_) => false,
    }
}

/// Relies on `symm::encrypt` with `Cipher::aes_256_cbc`: its output buffer
/// holds the input and one more block, and `symm::decrypt` under the same
/// key and vector gives the data back (the module's documented pair).
#[verifier::external_body]
pub(crate) fn aes_encrypt(key: &[u8], iv: &[u8], data: &[u8]) -> (r: Result<Vec<u8>, ErrorStack>)
    requires
        key@.len() == AES_KEY_SIZE,
        iv@.len() == AES_IV_SIZE,
        data@.len() <= C_INT_MAX,
    ensures
        r is Ok <==> aes_encrypted(key@, iv@, data@) is Some,
        r matches Ok(v) ==> v@ == aes_encrypted(key@, iv@, data@)->0,
        r matches Ok(v) ==> v@.len() <= data@.len() + AES_IV_SIZE,
        r matches Ok(v) ==> aes_decrypted(key@, iv@, v@) == Some(data@),
{
    encrypt(Cipher::aes_256_cbc(), key, Some(iv), data)
}

/// Relies on `symm::decrypt` with `Cipher::aes_256_cbc`.
#[verifier::external_body]
pub(crate) fn aes_decrypt(key: &[u8], iv: &[u8], data: &[u8]) -> (r: Result<Vec<u8>, ErrorStack>)
    requires
        key@.len() == AES_KEY_SIZE,
        iv@.len() == AES_IV_SIZE,
        data@.len() <= C_INT_MAX,
    ensures
        r is Ok <==> aes_decrypted(key@, iv@, data@) is Some,
        r matches Ok(v) ==> v@ == aes_decrypted(key@, iv@, data@)->0,
{
    decrypt(Cipher::aes_256_cbc(), key, Some(iv), data)
}

/// Relies on `rand::rand_bytes`: fills the buffer with random bytes.
#[verifier::external_body]
pub(crate) fn random_bytes(len: usize) -> (r: Result<Vec<u8>, ErrorStack>)
    requires
        len <= C_INT_MAX,
    ensures
        r matches Ok(v) ==> v@.len() == len,
{
    let mut buf = vec![0u8; len];
    rand_bytes(&mut buf)?;
    Ok(buf)
}

/// Relies on `Encrypter::encrypt` with OAEP padding, the key read with an
/// empty passphrase. The padding is random, so the cipher text is not a
/// function of the input; the `encrypt` module documents that the private
/// half of a key pair decrypts it, claimed here for private keys that
/// `RSA_check_key` finds consistent.
#[verifier::external_body]
pub(crate) fn rsa_encrypt(public_pem: &[u8], data: &[u8]) -> (r: Result<Vec<u8>, ErrorStack>)
    requires
        public_pem@.len() <= C_INT_MAX,
    ensures
        r matches Ok(c) ==> forall|k: Seq<u8>|
            #[trigger] public_pem_of(k) == Some(public_pem@) && key_pair_consistent(k)
                ==> rsa_decrypted(k, c@) == Some(data@),
{
    let key = PKey::public_key_from_pem_passphrase(public_pem, b"")?;
    let mut encrypter = Encrypter::new(&key)?;
    encrypter.set_rsa_padding(Padding::PKCS1_OAEP)?;
    let mut out = vec![0u8; encrypter.encrypt_len(data)?];
    let len = encrypter.encrypt(data, &mut out)?;
    out.truncate(len);
    Ok(out)
}

/// Relies on `Decrypter::decrypt` with OAEP padding, the key read with an
/// empty passphrase: the plain text is a function of the key and the cipher
/// text.
#[verifier::external_body]
pub(crate) fn rsa_decrypt(private_pem: &[u8], data: &[u8]) -> (r: Result<Vec<u8>, ErrorStack>)
    requires
        private_pem@.len() <= C_INT_MAX,
    ensures
        r is Ok <==> rsa_decrypted(private_pem@, data@) is Some,
        r matches Ok(v) ==> v@ == rsa_decrypted(private_pem@, data@)->0,
{
    let key = PKey::private_key_from_pem_passphrase(private_pem, b"")?;
    let mut decrypter = Decrypter::new(&key)?;
    decrypter.set_rsa_padding(Padding::PKCS1_OAEP)?;
    let mut out = vec![0u8; decrypter.decrypt_len(data)?];
    let len = decrypter.decrypt(data, &mut out)?;
    out.truncate(len);
    Ok(out)
}

/// Relies on `PKey::private_key_from_pem_passphrase` with an empty
/// passphrase, `PKey::rsa` and `Rsa::check_key`: whether the text holds an
/// RSA key whose parameters agree. A text that does not parse, a key of
/// another kind, or a failure inside OpenSSL counts as inconsistent.
#[verifier::external_body]
pub(crate) fn check_key_pair(private_pem: &[u8]) -> (r: bool)
    requires
        private_pem@.len() <= C_INT_MAX,
    ensures
        r == key_pair_consistent(private_pem@),
{
    match PKey::private_key_from_pem_passphrase(private_pem, b"").and_then(|k| k.rsa()) {
        Ok(rsa) => rsa.check_key().unwrap_or(false),
        Err(_) => false,
    }
}

/// The failure of an input too long for OpenSSL to take.
pub(crate) fn too_long() -> (r: ProtocolError)
    ensures
        r == ProtocolError::IoError(CodecError { kind: ErrorKind::InvalidInput }),
{
    ProtocolError::IoError(CodecError { kind: ErrorKind::InvalidInput })
}

/// A private RSA key, held as its PEM text.
#[derive(Debug)]
pub struct PrivateKey {
    pem: Vec<u8>,
}

/// A public RSA key, held as its PEM text.
#[derive(Debug)]
pub struct PublicKey {
    pem: Vec<u8>,
}

impl Clone for PrivateKey {
    fn clone(&self) -> (r: PrivateKey)
        ensures
            r@ == self@,
    {
        proof {
            use_type_invariant(self);
        }
        PrivateKey { pem: slice_to_vec(self.pem.as_slice()) }
    }
}

impl Clone for PublicKey {
    fn clone(&self) -> (r: PublicKey)
        ensures
            r@ == self@,
    {
        proof {
            use_type_invariant(self);
        }
        PublicKey { pem: slice_to_vec(self.pem.as_slice()) }
    }
}

impl Clone for AesKey {
    fn clone(&self) -> (r: AesKey)
        ensures
            r@ == self@,
    {
        proof {
            use_type_invariant(self);
        }
        AesKey { bytes: slice_to_vec(self.bytes.as_slice()) }
    }
}

impl View for PrivateKey {
    type V = Seq<u8>;

    open spec fn view(&self) -> Seq<u8> {
        self.pem_view()
    }
}

impl View for PublicKey {
    type V = Seq<u8>;

    open spec fn view(&self) -> Seq<u8> {
        self.pem_view()
    }
}

impl PrivateKey {
    pub closed spec fn pem_view(&self) -> Seq<u8> {
        self.pem@
    }

    #[verifier::type_invariant]
    spec fn short_enough(&self) -> bool {
        self.pem@.len() <= C_INT_MAX
    }

    /// A fresh key pair with a modulus of `RSA_KEY_BITS` bits.
    pub fn generate() -> (r: Result<PrivateKey, ProtocolError>)
        ensures
            r matches Ok(k) ==> modulus_bits_of(k@) == Some(RSA_KEY_BITS) && key_pair_consistent(
                k@,
            ),
    {
        let pem = match generate_private_pem(RSA_KEY_BITS) {
            Ok(p) => p,
            Err(e) => {
                return Err(ProtocolError::OpenSSLError(e));
            },
        };
        match PrivateKey::from_pem(pem) {
            Some(k) => Ok(k),
            None => Err(too_long()),
        }
    }

    /// The key that a PEM text holds, where the text is short enough for
    /// OpenSSL to take. The text is checked where it is used.
    pub fn from_pem(pem: Vec<u8>) -> (r: Option<PrivateKey>)
        ensures
            r is Some <==> pem@.len() <= C_INT_MAX,
            r matches Some(k) ==> k@ == pem@,
    {
        if pem.len() <= C_INT_MAX {
            Some(PrivateKey { pem })
        } else {
            None
        }
    }

    /// The PEM text of the key.
    pub fn pem(&self) -> (r: &[u8])
        ensures
            r@ == self@,
            r@.len() <= C_INT_MAX,
    {
        proof {
            use_type_invariant(self);
        }
        self.pem.as_slice()
    }

    /// Whether the text holds an RSA key pair whose parameters agree; a key
    /// loaded from elsewhere is worth checking before use.
    pub fn is_consistent(&self) -> (r: bool)
        ensures
            r == key_pair_consistent(self@),
    {
        check_key_pair(self.pem())
    }

    /// The public half of the key.
    pub fn public_key(&self) -> (r: Result<PublicKey, ProtocolError>)
        ensures
            r is Ok <==> (public_pem_of(self@) matches Some(p) && p.len() <= C_INT_MAX),
            r matches Ok(k) ==> k@ == public_pem_of(self@)->0,
    {
        let pem = match public_pem(self.pem()) {
            Ok(p) => p,
            Err(e) => {
                return Err(ProtocolError::OpenSSLError(e));
            },
        };
        match PublicKey::from_pem(pem) {
            Some(k) => Ok(k),
            None => Err(too_long()),
        }
    }
}

impl PublicKey {
    pub closed spec fn pem_view(&self) -> Seq<u8> {
        self.pem@
    }

    #[verifier::type_invariant]
    spec fn short_enough(&self) -> bool {
        self.pem@.len() <= C_INT_MAX
    }

    /// The key that a PEM text holds, where the text is short enough for
    /// OpenSSL to take. The text is checked where it is used.
    pub fn from_pem(pem: Vec<u8>) -> (r: Option<PublicKey>)
        ensures
            r is Some <==> pem@.len() <= C_INT_MAX,
            r matches Some(k) ==> k@ == pem@,
    {
        if pem.len() <= C_INT_MAX {
            Some(PublicKey { pem })
        } else {
            None
        }
    }

    /// The PEM text of the key.
    pub fn pem(&self) -> (r: &[u8])
        ensures
            r@ == self@,
            r@.len() <= C_INT_MAX,
    {
        proof {
            use_type_invariant(self);
        }
        self.pem.as_slice()
    }

    /// Whether the two keys have the same text.
    pub fn same_as(&self, other: &PublicKey) -> (r: bool)
        ensures
            r == (self@ == other@),
    {
        bytes_equal(self.pem.as_slice(), other.pem.as_slice())
    }
}

/// Whether two byte strings are equal.
pub fn bytes_equal(a: &[u8], b: &[u8]) -> (r: bool)
    ensures
        r == (a@ == b@),
{
    if a.len() != b.len() {
        return false;
    }
    let mut i: usize = 0;
    while i < a.len()
        invariant
            a@.len() == b@.len(),
            0 <= i <= a@.len(),
            forall|j: int| 0 <= j < i ==> a@[j] == b@[j],
        decreases a@.len() - i,
    {
        if a[i] != b[i] {
            return false;
        }
        i += 1;
    }
    assert(a@ =~= b@);
    true
}

/// A 256-bit session key.
#[derive(Debug)]
pub struct AesKey {
    bytes: Vec<u8>,
}

impl View for AesKey {
    type V = Seq<u8>;

    open spec fn view(&self) -> Seq<u8> {
        self.bytes_view()
    }
}

impl AesKey {
    pub closed spec fn bytes_view(&self) -> Seq<u8> {
        self.bytes@
    }

    pub open spec fn wf(&self) -> bool {
        self@.len() == AES_KEY_SIZE
    }

    #[verifier::type_invariant]
    spec fn right_size(&self) -> bool {
        self.bytes@.len() == AES_KEY_SIZE
    }

    /// A fresh random key.
    pub fn generate() -> (r: Result<AesKey, ErrorStack>)
        ensures
            r matches Ok(k) ==> k.wf(),
    {
        let bytes = random_bytes(AES_KEY_SIZE)?;
        Ok(AesKey { bytes })
    }

    /// The key made of the given bytes, where there are exactly 32 of them.
    pub fn from_bytes(bytes: Vec<u8>) -> (r: Option<AesKey>)
        ensures
            r is Some <==> bytes@.len() == AES_KEY_SIZE,
            r matches Some(k) ==> k.wf() && k@ == bytes@,
    {
        if bytes.len() == AES_KEY_SIZE {
            Some(AesKey { bytes })
        } else {
            None
        }
    }

    /// The bytes of the key.
    pub fn as_bytes(&self) -> (r: &[u8])
        ensures
            r@ == self@,
            r@.len() == AES_KEY_SIZE,
    {
        proof {
            use_type_invariant(self);
        }
        self.bytes.as_slice()
    }
}

} // verus!
