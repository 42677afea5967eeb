//! Trusted boundary to the cryptographic primitives of outside crates.
//!
//! Each wrapper makes exactly one outside call; its contract states what the
//! crate's source and documentation promise of that call, over uninterpreted
//! names for results that no short formula can state (digests, ciphertexts,
//! curve points).  Everything else in this crate is verified against these
//! contracts.

use vstd::prelude::*;
use aes_gcm::aead::Aead;
use aes_gcm::KeyInit;
use sha2::Digest;
use rand::RngCore;
use pqcrypto_traits::kem::PublicKey as KemPublicKeyTrait;
use pqcrypto_traits::kem::SecretKey as KemSecretKeyTrait;
use pqcrypto_traits::kem::Ciphertext as KemCiphertextTrait;
use pqcrypto_traits::kem::SharedSecret as KemSharedSecretTrait;
use ed25519_dalek::Signer;
use ed25519_dalek::Verifier;

verus! {

/// The SHA-256 digest of a byte sequence.
pub uninterp spec fn sha256_of(data: Seq<u8>) -> Seq<u8>;

/// The AES-256-GCM ciphertext (tag included) of a plaintext under a
/// 32-byte key and a 12-byte nonce.
pub uninterp spec fn aead_enc(key: Seq<u8>, nonce: Seq<u8>, pt: Seq<u8>) -> Seq<u8>;

/// The X25519 public point of a 32-byte private scalar.
pub uninterp spec fn x25519_pub_of(sk: Seq<u8>) -> Seq<u8>;

/// The X25519 shared secret agreed between two private scalars; both
/// parties compute it from their own scalar and the other's public point.
pub uninterp spec fn x25519_secret(a: Seq<u8>, b: Seq<u8>) -> Seq<u8>;

/// The Ed25519 verification key of a 32-byte signing key.
pub uninterp spec fn ed25519_pub_of(sk: Seq<u8>) -> Seq<u8>;

/// The (deterministic, RFC 8032) Ed25519 signature of a message.
pub uninterp spec fn ed25519_sig_of(sk: Seq<u8>, msg: Seq<u8>) -> Seq<u8>;

/// The Kyber-1024 public key embedded in a secret key (the PQClean secret
/// key format carries the public key verbatim).
pub uninterp spec fn kyber_pub_of(sk: Seq<u8>) -> Seq<u8>;

/// The Kyber-1024 decapsulation of a ciphertext under a secret key.
pub uninterp spec fn kyber_decap_of(sk: Seq<u8>, ct: Seq<u8>) -> Seq<u8>;

/// The standard (padded) base64 encoding of a byte sequence.
pub uninterp spec fn b64_of(data: Seq<u8>) -> Seq<char>;

/// Byte length of an X25519 key or shared secret.
pub const X25519_LEN: usize = 32;

/// Byte length of an Ed25519 signing or verification key.
pub const ED25519_KEY_LEN: usize = 32;

/// Byte length of an Ed25519 signature.
pub const ED25519_SIG_LEN: usize = 64;

/// Byte length of a Kyber-1024 public key.
pub const KYBER_PK_LEN: usize = 1568;

/// Byte length of a Kyber-1024 secret key.
pub const KYBER_SK_LEN: usize = 3168;

/// Byte length of a Kyber-1024 ciphertext.
pub const KYBER_CT_LEN: usize = 1568;

/// Byte length of a Kyber-1024 shared secret.
pub const KYBER_SS_LEN: usize = 32;

/// Byte length of an AES-256 key.
pub const AEAD_KEY_LEN: usize = 32;

/// Byte length of an AES-GCM nonce.
pub const AEAD_NONCE_LEN: usize = 12;

/// Byte length of an AES-GCM authentication tag.
pub const AEAD_TAG_LEN: usize = 16;

/// Largest plaintext this core hands to the AEAD; far below the AES-GCM
/// per-invocation limit, so encryption cannot fail.
pub const AEAD_PT_MAX: usize = 0x4000_0000;

/// Relies on sha2::Sha256: the digest is 32 bytes and depends on the input
/// bytes alone.
#[verifier::external_body]
pub(crate) fn sha256(data: &[u8]) -> (r: Vec<u8>)
    ensures
        r@ == sha256_of(data@),
        r@.len() == 32,
{
    let mut hasher = sha2::Sha256::new();
    hasher.update(data);
    hasher.finalize().to_vec()
}

/// Relies on aes_gcm::Aes256Gcm::encrypt: deterministic for a given key,
/// nonce and plaintext, appends the 16-byte tag, and fails only when the
/// plaintext exceeds the AES-GCM length limit, which the precondition
/// rules out.
#[verifier::external_body]
pub(crate) fn aead_encrypt(key: &[u8], nonce: &[u8], pt: &[u8]) -> (r: Vec<u8>)
    requires
        key@.len() == 32,
        nonce@.len() == 12,
        pt@.len() <= AEAD_PT_MAX,
    ensures
        r@ == aead_enc(key@, nonce@, pt@),
        r@.len() == pt@.len() + 16,
{
    let cipher = aes_gcm::Aes256Gcm::new_from_slice(key).unwrap();
    cipher.encrypt(aes_gcm::Nonce::from_slice(nonce), pt).unwrap()
}

/// Relies on aes_gcm::Aes256Gcm::decrypt: it recovers exactly the
/// plaintext that was encrypted under the same key and nonce, and its
/// authentication check accepts only ciphertexts produced under them.
/// The last clause holds because a GCM tag is valid under at most one
/// 12-byte nonce per key: for a fixed key and ciphertext the tag is the
/// GHASH value masked with the block cipher applied to the nonce's
/// counter block, and the block cipher is a permutation, so distinct
/// nonces give distinct valid tags.
#[verifier::external_body]
pub(crate) fn aead_decrypt(key: &[u8], nonce: &[u8], ct: &[u8]) -> (r: Option<Vec<u8>>)
    requires
        key@.len() == 32,
        nonce@.len() == 12,
    ensures
        r matches Some(p) ==> ct@ == aead_enc(key@, nonce@, p@),
        forall|pt: Seq<u8>|
            ct@ == aead_enc(key@, nonce@, pt) ==> r is Some && r->Some_0@ == pt,
        forall|n2: Seq<u8>, p2: Seq<u8>|
            r is Some && n2.len() == 12 && n2 != nonce@ ==> ct@ != #[trigger] aead_enc(
                key@,
                n2,
                p2,
            ),
{
    let cipher = aes_gcm::Aes256Gcm::new_from_slice(key).unwrap();
    cipher.decrypt(aes_gcm::Nonce::from_slice(nonce), ct).ok()
}

/// Relies on x25519_dalek::PublicKey::from(&StaticSecret): the public
/// point is a function of the private scalar alone.
#[verifier::external_body]
pub(crate) fn x25519_public(sk: &[u8]) -> (r: Vec<u8>)
    requires
        sk@.len() == 32,
    ensures
        r@ == x25519_pub_of(sk@),
        r@.len() == 32,
{
    let mut arr = [0u8; 32];
    arr.copy_from_slice(sk);
    let secret = x25519_dalek::StaticSecret::from(arr);
    x25519_dalek::PublicKey::from(&secret).as_bytes().to_vec()
}

/// Relies on x25519_dalek::StaticSecret::diffie_hellman: when the peer's
/// point is the public key of some scalar `b`, the result is the
/// Diffie-Hellman secret of the unordered pair of scalars, the same value
/// the peer computes from `b` and our public key.
#[verifier::external_body]
pub(crate) fn x25519_dh(sk: &[u8], pk: &[u8]) -> (r: Vec<u8>)
    requires
        sk@.len() == 32,
        pk@.len() == 32,
    ensures
        r@.len() == 32,
        forall|b: Seq<u8>|
            pk@ == x25519_pub_of(b) ==> r@ == x25519_secret(sk@, b) && r@ == x25519_secret(
                b,
                sk@,
            ),
{
    let mut sk_arr = [0u8; 32];
    sk_arr.copy_from_slice(sk);
    let mut pk_arr = [0u8; 32];
    pk_arr.copy_from_slice(pk);
    let secret = x25519_dalek::StaticSecret::from(sk_arr);
    let public = x25519_dalek::PublicKey::from(pk_arr);
    secret.diffie_hellman(&public).as_bytes().to_vec()
}

/// Relies on ed25519_dalek::SigningKey::verifying_key: the verification
/// key is a function of the 32-byte signing key alone.
#[verifier::external_body]
pub(crate) fn ed25519_public(sk: &[u8]) -> (r: Vec<u8>)
    requires
        sk@.len() == 32,
    ensures
        r@ == ed25519_pub_of(sk@),
        r@.len() == 32,
{
    let mut arr = [0u8; 32];
    arr.copy_from_slice(sk);
    let signing = ed25519_dalek::SigningKey::from_bytes(&arr);
    signing.verifying_key().to_bytes().to_vec()
}

/// Relies on ed25519_dalek::SigningKey::sign: Ed25519 signing is
/// deterministic (RFC 8032), a function of the signing key and message.
#[verifier::external_body]
pub(crate) fn ed25519_sign(sk: &[u8], msg: &[u8]) -> (r: Vec<u8>)
    requires
        sk@.len() == 32,
    ensures
        r@ == ed25519_sig_of(sk@, msg@),
        r@.len() == 64,
{
    let mut arr = [0u8; 32];
    arr.copy_from_slice(sk);
    let signing = ed25519_dalek::SigningKey::from_bytes(&arr);
    signing.sign(msg).to_bytes().to_vec()
}

/// Relies on ed25519_dalek::VerifyingKey::verify: a genuine signature by
/// the signing key behind this verification key is accepted.
#[verifier::external_body]
pub(crate) fn ed25519_verify(pk: &[u8], msg: &[u8], sig: &[u8]) -> (r: bool)
    requires
        pk@.len() == 32,
        sig@.len() == 64,
    ensures
        forall|sk: Seq<u8>|
            pk@ == ed25519_pub_of(sk) && sig@ == ed25519_sig_of(sk, msg@) ==> r,
{
    let mut pk_arr = [0u8; 32];
    pk_arr.copy_from_slice(pk);
    let mut sig_arr = [0u8; 64];
    sig_arr.copy_from_slice(sig);
    match ed25519_dalek::VerifyingKey::from_bytes(&pk_arr) {
        Ok(vk) => vk.verify(msg, &ed25519_dalek::Signature::from_bytes(&sig_arr)).is_ok(),
        Err(_) => false,
    }
}

/// Relies on pqcrypto_kyber::kyber1024::keypair: the PQClean secret key
/// format embeds the matching public key, so the public key is a function
/// of the secret key bytes.
#[verifier::external_body]
pub(crate) fn kyber_keypair() -> (r: (Vec<u8>, Vec<u8>))
    ensures
        r.0@ == kyber_pub_of(r.1@),
        r.0@.len() == 1568,
        r.1@.len() == 3168,
{
    let (pk, sk) = pqcrypto_kyber::kyber1024::keypair();
    (pk.as_bytes().to_vec(), sk.as_bytes().to_vec())
}

/// Relies on pqcrypto_kyber::kyber1024::encapsulate: decapsulating the
/// returned ciphertext with the secret key behind this public key yields
/// the returned shared secret (KEM correctness).
#[verifier::external_body]
pub(crate) fn kyber_encapsulate(pk: &[u8]) -> (r: (Vec<u8>, Vec<u8>))
    requires
        pk@.len() == 1568,
    ensures
        r.0@.len() == 32,
        r.1@.len() == 1568,
        forall|sk: Seq<u8>| pk@ == kyber_pub_of(sk) ==> r.0@ == kyber_decap_of(sk, r.1@),
{
    let public = pqcrypto_kyber::kyber1024::PublicKey::from_bytes(pk).unwrap();
    let (ss, ct) = pqcrypto_kyber::kyber1024::encapsulate(&public);
    (ss.as_bytes().to_vec(), ct.as_bytes().to_vec())
}

/// Relies on pqcrypto_kyber::kyber1024::decapsulate: the shared secret is
/// a function of the secret key and ciphertext bytes alone (implicit
/// rejection makes it total).
#[verifier::external_body]
pub(crate) fn kyber_decapsulate(sk: &[u8], ct: &[u8]) -> (r: Vec<u8>)
    requires
        sk@.len() == 3168,
        ct@.len() == 1568,
    ensures
        r@ == kyber_decap_of(sk@, ct@),
        r@.len() == 32,
{
    let secret = pqcrypto_kyber::kyber1024::SecretKey::from_bytes(sk).unwrap();
    let cipher = pqcrypto_kyber::kyber1024::Ciphertext::from_bytes(ct).unwrap();
    pqcrypto_kyber::kyber1024::decapsulate(&cipher, &secret).as_bytes().to_vec()
}

/// Relies on rand::rngs::OsRng::fill_bytes: fills the buffer; nothing is
/// assumed of the values beyond the length.
#[verifier::external_body]
pub(crate) fn random_bytes(n: usize) -> (r: Vec<u8>)
    ensures
        r@.len() == n,
{
    let mut buf = vec![0u8; n];
    rand::rngs::OsRng.fill_bytes(&mut buf);
    buf
}

/// Relies on rand::rngs::OsRng::next_u32; nothing is assumed of the value.
#[verifier::external_body]
pub(crate) fn random_u32() -> u32 {
    rand::rngs::OsRng.next_u32()
}

/// Relies on hex::encode: two lowercase hex digits per byte, in order.
#[verifier::external_body]
pub(crate) fn hex_encode(data: &[u8]) -> (r: String)
    ensures
        r@ == crate::bytes::hex_of(data@),
{
    hex::encode(data)
}

/// Relies on hex::decode: decoding the hex text of any byte sequence
/// yields exactly those bytes; other inputs may be rejected.
#[verifier::external_body]
pub(crate) fn hex_decode(s: &str) -> (r: Option<Vec<u8>>)
    ensures
        forall|b: Seq<u8>| s@ == crate::bytes::hex_of(b) ==> r is Some && r->Some_0@ == b,
{
    hex::decode(s).ok()
}

/// Relies on base64::engine::general_purpose::STANDARD.encode: the
/// standard padded base64 text of the input bytes.
#[verifier::external_body]
pub(crate) fn encode_b64(data: &[u8]) -> (r: String)
    ensures
        r@ == b64_of(data@),
{
    base64::Engine::encode(&base64::engine::general_purpose::STANDARD, data)
}

/// Relies on base64::engine::general_purpose::STANDARD.decode: decoding
/// the standard padded base64 text of any byte sequence yields exactly
/// those bytes; other inputs may be rejected.
#[verifier::external_body]
pub(crate) fn decode_b64(s: &str) -> (r: Option<Vec<u8>>)
    ensures
        forall|b: Seq<u8>| s@ == b64_of(b) ==> r is Some && r->Some_0@ == b,
{
    base64::Engine::decode(&base64::engine::general_purpose::STANDARD, s).ok()
}

} // verus!
