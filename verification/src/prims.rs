//! Primitives layer: Ristretto255 key pairs, Schnorr-style signing and
//! verification, Diffie-Hellman, HKDF-SHA256 and AES-256-GCM, exposed as
//! byte-level trusted wrappers around the cryptimitives crate, plus the
//! SHA-256 hex digest used by the legacy passphrase cipher.

use vstd::prelude::*;

verus! {

use cryptraits::aead::Aead;
use cryptraits::convert::{FromBytes, ToVec};
use cryptraits::kdf::Kdf;
use cryptraits::key::{Generate, KeyPair as KeyPairTrait, SecretKey as SecretKeyTrait};
use cryptraits::key_exchange::DiffieHellman;
use cryptraits::signature::{Sign, Verify};

/// Failure of a cryptographic primitive.
#[derive(Debug, Clone, Copy, PartialEq, Eq, Structural)]
pub enum PrimitiveError {
    /// Bytes that are not a canonical Ristretto point encoding.
    InvalidPoint,
    /// Bytes that are not a canonical secret-key encoding.
    InvalidScalar,
    /// A signature that does not verify or does not parse.
    BadSignature,
    /// An AEAD authentication failure.
    AeadAuthFailure,
    /// A requested KDF output length that cannot be produced.
    KdfLength,
}

/// Whether bytes are a canonical 64-byte secret-key encoding (a canonical
/// scalar followed by a 32-byte nonce seed), i.e. whether
/// `x25519_ristretto::SecretKey::from_bytes` accepts them.
pub uninterp spec fn is_secret_key(b: Seq<u8>) -> bool;

/// Whether bytes are a canonical 32-byte Ristretto point encoding, i.e.
/// whether `x25519_ristretto::PublicKey::from_bytes` accepts them.
pub uninterp spec fn is_public_key(b: Seq<u8>) -> bool;

/// Whether bytes are a well-formed 64-byte signature encoding, i.e.
/// whether `x25519_ristretto::Signature::from_bytes` accepts them.
pub uninterp spec fn is_signature(b: Seq<u8>) -> bool;

/// The public-key bytes derived from secret-key bytes (the secret scalar
/// times the Ristretto basepoint, compressed).
pub uninterp spec fn public_of(secret: Seq<u8>) -> Seq<u8>;

/// The compressed Diffie-Hellman shared point of a secret key and a peer
/// public key.
pub uninterp spec fn dh_shared(secret: Seq<u8>, public: Seq<u8>) -> Seq<u8>;

/// Whether a signature over a message verifies under a public key.
pub uninterp spec fn sig_verifies(public: Seq<u8>, message: Seq<u8>, signature: Seq<u8>) -> bool;

/// The 32-byte HKDF-SHA256 expansion of the given salt, input key material
/// and info string.
pub uninterp spec fn hkdf32_of(salt: Seq<u8>, ikm: Seq<u8>, info: Seq<u8>) -> Seq<u8>;

/// The AES-256-GCM ciphertext (16-byte tag included) of a plaintext under
/// a 32-byte key and a 12-byte nonce, with no associated data.
pub uninterp spec fn aead_ct_of(key: Seq<u8>, nonce: Seq<u8>, plaintext: Seq<u8>) -> Seq<u8>;

/// The lowercase-hex SHA-256 digest of a string, as 64 bytes of ASCII.
pub uninterp spec fn sha256_hex_of(s: Seq<char>) -> Seq<u8>;

/// The largest plaintext AES-GCM accepts (the aes-gcm crate's `P_MAX`).
pub open spec fn aead_pt_max() -> int {
    0x10_0000_0000
}

/// Whether a ciphertext is one that AES-256-GCM produces under the given
/// key and nonce, i.e. whether decryption authenticates it.
pub open spec fn aead_decryptable(key: Seq<u8>, nonce: Seq<u8>, ct: Seq<u8>) -> bool {
    exists|pt: Seq<u8>| pt.len() <= aead_pt_max() && ct == aead_ct_of(key, nonce, pt)
}

/// Relies on `x25519_ristretto::KeyPair::generate_with(OsRng)`: a fresh
/// random key pair whose secret half re-parses (its scalar is stored in
/// canonical form) and whose public half is derived from the secret half.
#[verifier::external_body]
pub(crate) fn generate_keypair_bytes() -> (r: (Vec<u8>, Vec<u8>))
    ensures
        is_secret_key(r.0@),
        r.0@.len() == 64,
        r.1@ == public_of(r.0@),
        is_public_key(r.1@),
        r.1@.len() == 32,
{
    let kp: cryptimitives::key::KeyPair<cryptimitives::key::x25519_ristretto::SecretKey> =
        cryptimitives::key::x25519_ristretto::KeyPair::generate_with(rand_core::OsRng);
    (kp.secret().to_vec(), kp.public().to_vec())
}

/// Relies on `SecretKey::from_bytes` followed by `to_public`: accepts
/// exactly canonical secret-key bytes and returns the derived public key,
/// itself a canonical point encoding.
#[verifier::external_body]
pub(crate) fn derive_public(secret: &[u8]) -> (r: Result<Vec<u8>, PrimitiveError>)
    ensures
        r is Ok <==> is_secret_key(secret@),
        r is Ok ==> r->Ok_0@ == public_of(secret@) && is_public_key(r->Ok_0@) && r->Ok_0@.len()
            == 32,
{
    match cryptimitives::key::x25519_ristretto::SecretKey::from_bytes(secret) {
        Ok(sk) => Ok(sk.to_public().to_vec()),
        Err(_) => Err(PrimitiveError::InvalidScalar),
    }
}

/// Relies on `SecretKey::from_bytes`: accepts exactly canonical secret-key
/// bytes, so acceptance implies a 64-byte input.
#[verifier::external_body]
pub(crate) fn check_secret_key(bytes: &[u8]) -> (r: bool)
    ensures
        r == is_secret_key(bytes@),
        r ==> bytes@.len() == 64,
{
    cryptimitives::key::x25519_ristretto::SecretKey::from_bytes(bytes).is_ok()
}

/// Relies on `PublicKey::from_bytes`: accepts exactly canonical 32-byte
/// Ristretto point encodings, so acceptance implies a 32-byte input.
#[verifier::external_body]
pub(crate) fn check_public_key(bytes: &[u8]) -> (r: bool)
    ensures
        r == is_public_key(bytes@),
        r ==> bytes@.len() == 32,
{
    cryptimitives::key::x25519_ristretto::PublicKey::from_bytes(bytes).is_ok()
}

/// Relies on `Signature::from_bytes`: accepts exactly well-formed 64-byte
/// signature encodings.
#[verifier::external_body]
pub(crate) fn check_signature_bytes(bytes: &[u8]) -> (r: bool)
    ensures
        r == is_signature(bytes@),
{
    cryptimitives::key::x25519_ristretto::Signature::from_bytes(bytes).is_ok()
}

/// Relies on `SecretKey::sign` (schnorrkel `sign_simple`): a fresh
/// signature over the message; it is well formed and verifies under the
/// signer's public key.
#[verifier::external_body]
pub(crate) fn sign_bytes(secret: &[u8], message: &[u8]) -> (r: Result<Vec<u8>, PrimitiveError>)
    ensures
        r is Ok <==> is_secret_key(secret@),
        r is Ok ==> r->Ok_0@.len() == 64 && is_signature(r->Ok_0@) && sig_verifies(
            public_of(secret@),
            message@,
            r->Ok_0@,
        ),
{
    match cryptimitives::key::x25519_ristretto::SecretKey::from_bytes(secret) {
        Ok(sk) => Ok(sk.sign(message).to_vec()),
        Err(_) => Err(PrimitiveError::InvalidScalar),
    }
}

/// Relies on `PublicKey::verify` (schnorrkel `verify_simple`):
/// deterministic signature verification; any undecodable public key or
/// signature yields false.
#[verifier::external_body]
pub(crate) fn verify_bytes(public: &[u8], message: &[u8], signature: &[u8]) -> (r: bool)
    ensures
        r == (is_public_key(public@) && is_signature(signature@) && sig_verifies(
            public@,
            message@,
            signature@,
        )),
{
    let pk = match cryptimitives::key::x25519_ristretto::PublicKey::from_bytes(public) {
        Ok(p) => p,
        Err(_) => return false,
    };
    let sig = match cryptimitives::key::x25519_ristretto::Signature::from_bytes(signature) {
        Ok(s) => s,
        Err(_) => return false,
    };
    pk.verify(message, &sig).is_ok()
}

/// Relies on `SecretKey::diffie_hellman`: the compressed product of the
/// secret scalar and the peer's public point. The exchange is symmetric:
/// against a public key derived from a peer secret it agrees with the
/// peer's own computation on our derived public key.
#[verifier::external_body]
pub(crate) fn dh_bytes(secret: &[u8], public: &[u8]) -> (r: Result<Vec<u8>, PrimitiveError>)
    ensures
        r is Ok <==> (is_secret_key(secret@) && is_public_key(public@)),
        r is Ok ==> r->Ok_0@ == dh_shared(secret@, public@) && r->Ok_0@.len() == 32,
        r is Ok ==> forall|peer: Seq<u8>|
            is_secret_key(peer) && public@ == #[trigger] public_of(peer) ==> r->Ok_0@ == dh_shared(
                peer,
                public_of(secret@),
            ),
{
    let sk = match cryptimitives::key::x25519_ristretto::SecretKey::from_bytes(secret) {
        Ok(s) => s,
        Err(_) => return Err(PrimitiveError::InvalidScalar),
    };
    let pk = match cryptimitives::key::x25519_ristretto::PublicKey::from_bytes(public) {
        Ok(p) => p,
        Err(_) => return Err(PrimitiveError::InvalidPoint),
    };
    Ok(sk.diffie_hellman(&pk).to_vec())
}

/// Relies on HKDF-SHA256 (`Kdf::new` then `expand`, the extract-and-expand
/// pair): the 32-byte output determined by salt, input key material and
/// info; 32 bytes never exceed the expansion limit.
#[verifier::external_body]
pub(crate) fn hkdf_sha256(salt: &[u8], ikm: &[u8], info: &[u8]) -> (r: Vec<u8>)
    ensures
        r@ == hkdf32_of(salt@, ikm@, info@),
        r@.len() == 32,
{
    let h = cryptimitives::kdf::sha256::Kdf::new(Some(salt), ikm);
    let mut okm = vec![0u8; 32];
    h.expand(info, &mut okm).unwrap();
    okm
}

/// Relies on `Aes256Gcm::encrypt` (the aes-gcm crate): AES-256-GCM with a
/// 96-bit nonce, no associated data and a 128-bit appended tag; the
/// ciphertext is a function of key, nonce and plaintext, 16 bytes longer
/// than the plaintext, and encryption fails exactly on plaintexts over the
/// crate's `P_MAX` limit.
#[verifier::external_body]
pub(crate) fn aead_encrypt(key: &[u8], nonce: &[u8], plaintext: &[u8]) -> (r: Result<
    Vec<u8>,
    PrimitiveError,
>)
    requires
        key@.len() == 32,
        nonce@.len() == 12,
    ensures
        r is Ok <==> plaintext@.len() <= aead_pt_max(),
        r is Ok ==> r->Ok_0@ == aead_ct_of(key@, nonce@, plaintext@) && r->Ok_0@.len()
            == plaintext@.len() + 16,
{
    let cipher = <cryptimitives::aead::aes_gcm::Aes256Gcm as Aead>::new(key);
    match cipher.encrypt(nonce, plaintext, None) {
        Ok(ct) => Ok(ct),
        Err(_) => Err(PrimitiveError::AeadAuthFailure),
    }
}

/// Relies on `Aes256Gcm::decrypt` (the aes-gcm crate): succeeds exactly on
/// ciphertexts that AES-256-GCM produces under the key and nonce (the tag
/// authenticates them), and returns that plaintext, 16 bytes shorter than
/// the ciphertext.
#[verifier::external_body]
pub(crate) fn aead_decrypt(key: &[u8], nonce: &[u8], ciphertext: &[u8]) -> (r: Result<
    Vec<u8>,
    PrimitiveError,
>)
    requires
        key@.len() == 32,
        nonce@.len() == 12,
    ensures
        r is Ok ==> ciphertext@ == aead_ct_of(key@, nonce@, r->Ok_0@) && r->Ok_0@.len() + 16
            == ciphertext@.len() && r->Ok_0@.len() <= aead_pt_max(),
        forall|pt: Seq<u8>|
            ciphertext@ == aead_ct_of(key@, nonce@, pt) && pt.len() <= aead_pt_max() ==> r is Ok
                && r->Ok_0@ == pt,
{
    let cipher = <cryptimitives::aead::aes_gcm::Aes256Gcm as Aead>::new(key);
    match cipher.decrypt(nonce, ciphertext, None) {
        Ok(pt) => Ok(pt),
        Err(_) => Err(PrimitiveError::AeadAuthFailure),
    }
}

/// Relies on `OsRng::fill_bytes`: 12 fresh random bytes; nothing more is
/// assumed of them.
#[verifier::external_body]
pub(crate) fn random_nonce() -> (r: Vec<u8>)
    ensures
        r@.len() == 12,
{
    let mut nonce = vec![0u8; 12];
    rand_core::RngCore::fill_bytes(&mut rand_core::OsRng, &mut nonce);
    nonce
}

/// Relies on `sha256::digest`: the lowercase hex form of the SHA-256
/// digest, 64 bytes of ASCII, a function of the input string alone.
#[verifier::external_body]
pub(crate) fn sha256_hex_bytes(s: &str) -> (r: Vec<u8>)
    ensures
        r@ == sha256_hex_of(s@),
        r@.len() == 64,
{
    sha256::digest(s).into_bytes()
}

} // verus!
