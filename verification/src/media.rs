//! Symmetric authenticated encryption for media payloads.
//!
//! Single-shot mode generates a fresh random key and nonce per file,
//! packages them with a plaintext digest into a bundle for out-of-band
//! transport, and re-checks the digest after decryption to catch bundle or
//! key mix-ups.  Chunked mode derives each chunk's nonce deterministically
//! from a shared base nonce and the chunk index, which guarantees nonce
//! uniqueness per chunk up to 2^32 chunks per key; the caller must generate
//! a fresh key per file.

use vstd::prelude::*;
use vstd::string::StringExecFns;
use crate::errors::ProtocolError;
use crate::crypto::aead_enc;
use crate::crypto::aead_encrypt;
use crate::crypto::aead_decrypt;
use crate::crypto::sha256;
use crate::crypto::sha256_of;
use crate::crypto::b64_of;
use crate::crypto::encode_b64;
use crate::crypto::decode_b64;
use crate::crypto::random_bytes;
use crate::crypto::AEAD_PT_MAX;
use crate::crypto::hex_encode;
use crate::crypto::hex_decode;
use crate::bytes::hex_of;
use crate::bytes::be32_of;
use crate::bytes::append_bytes;
use crate::bytes::be32;

verus! {

/// The per-chunk nonce: the first 8 bytes of the base nonce followed by
/// the chunk index as 4 big-endian bytes.
pub open spec fn chunk_nonce_of(base: Seq<u8>, idx: u32) -> Seq<u8> {
    base.take(8) + be32_of(idx)
}

/// Key material and metadata of one encrypted media payload.  The bundle
/// carries secret key material and must itself travel only inside an
/// already-secured channel; that is a caller obligation.
#[derive(Clone, Debug)]
pub struct MediaKeyBundle {
    /// Base64 of the 32-byte AES-256-GCM key.
    pub key: String,
    /// Base64 of the 12-byte nonce (single-shot) or base nonce (chunked).
    pub nonce: String,
    /// Base64 of the SHA-256 digest of the whole plaintext; single-shot
    /// mode only, empty when chunked.
    pub digest: String,
    /// Original file name, carried for the receiving side.
    pub file_name: String,
    /// Original media type, carried for the receiving side.
    pub file_type: String,
    /// Whether the payload was encrypted chunk by chunk.
    pub is_chunked: bool,
    /// Chunk size in bytes when chunked.
    pub chunk_size: Option<u32>,
}

/// Encrypts a whole media payload under a fresh random key and nonce and
/// packages key, nonce and plaintext digest into a bundle.
pub fn encrypt_media(data: &[u8], file_name: &str, file_type: &str) -> (r: Result<
    (Vec<u8>, MediaKeyBundle),
    ProtocolError,
>)
    requires
        data@.len() <= AEAD_PT_MAX,
    ensures
        r is Ok,
        r matches Ok(p) ==> {
            &&& exists|k: Seq<u8>, n: Seq<u8>|
                {
                    &&& k.len() == 32
                    &&& n.len() == 12
                    &&& p.1.key@ == b64_of(k)
                    &&& p.1.nonce@ == b64_of(n)
                    &&& p.0@ == aead_enc(k, n, data@)
                }
            &&& p.0@.len() == data@.len() + 16
            &&& p.1.digest@ == b64_of(sha256_of(data@))
            &&& p.1.file_name@ == file_name@
            &&& p.1.file_type@ == file_type@
            &&& !p.1.is_chunked
            &&& p.1.chunk_size is None
        },
{
    let key = random_bytes(32);
    let nonce = random_bytes(12);
    let ciphertext = aead_encrypt(key.as_slice(), nonce.as_slice(), data);
    let digest = sha256(data);
    let bundle = MediaKeyBundle {
        key: encode_b64(key.as_slice()),
        nonce: encode_b64(nonce.as_slice()),
        digest: encode_b64(digest.as_slice()),
        file_name: String::from_str(file_name),
        file_type: String::from_str(file_type),
        is_chunked: false,
        chunk_size: None,
    };
    Ok((ciphertext, bundle))
}

/// Decrypts a single-shot media payload and re-checks the plaintext digest
/// recorded in its bundle.  Authenticated decryption is checked first and
/// the digest field is not consulted before it passes; `DigestMismatch` is
/// reported only for a ciphertext that decrypted correctly, to flag bundle
/// or key confusion.
pub fn decrypt_media(ciphertext: &[u8], bundle: &MediaKeyBundle) -> (r: Result<
    Vec<u8>,
    ProtocolError,
>)
    ensures
        bundle.is_chunked ==> r == Err::<Vec<u8>, ProtocolError>(ProtocolError::MalformedBundle),
        forall|k: Seq<u8>, n: Seq<u8>, p: Seq<u8>|
            {
                &&& !bundle.is_chunked
                &&& k.len() == 32
                &&& n.len() == 12
                &&& bundle.key@ == b64_of(k)
                &&& bundle.nonce@ == b64_of(n)
                &&& bundle.digest@ == b64_of(sha256_of(p))
                &&& ciphertext@ == aead_enc(k, n, p)
            } ==> r is Ok && r->Ok_0@ == p,
        r is Ok ==> exists|k: Seq<u8>, n: Seq<u8>, p: Seq<u8>|
            k.len() == 32 && n.len() == 12 && ciphertext@ == #[trigger] aead_enc(k, n, p) && r->Ok_0@
                == p,
        r == Err::<Vec<u8>, ProtocolError>(ProtocolError::DigestMismatch) ==> exists|
            k: Seq<u8>,
            n: Seq<u8>,
            p: Seq<u8>,
        |
            k.len() == 32 && n.len() == 12 && ciphertext@ == #[trigger] aead_enc(k, n, p),
        r matches Ok(pt) ==> forall|d: Seq<u8>|
            bundle.digest@ == #[trigger] b64_of(d) ==> d == sha256_of(pt@),
        forall|k: Seq<u8>, n: Seq<u8>|
            !bundle.is_chunked && k.len() == 32 && n.len() == 12 && bundle.key@ == #[trigger] b64_of(
                k,
            ) && bundle.nonce@ == #[trigger] b64_of(n) && (forall|p: Seq<u8>|
                ciphertext@ != #[trigger] aead_enc(k, n, p)) ==> r == Err::<Vec<u8>, ProtocolError>(
                ProtocolError::AuthenticationFailed,
            ),
{
    if bundle.is_chunked {
        return Err(ProtocolError::MalformedBundle);
    }
    let key = match decode_b64(bundle.key.as_str()) {
        Some(k) => k,
        None => { return Err(ProtocolError::EncodingError) },
    };
    let nonce = match decode_b64(bundle.nonce.as_str()) {
        Some(n) => n,
        None => { return Err(ProtocolError::EncodingError) },
    };
    if key.len() != 32 || nonce.len() != 12 {
        return Err(ProtocolError::InvalidKeyMaterial);
    }
    let pt = match aead_decrypt(key.as_slice(), nonce.as_slice(), ciphertext) {
        Some(p) => p,
        None => { return Err(ProtocolError::AuthenticationFailed) },
    };
    let expected_digest = match decode_b64(bundle.digest.as_str()) {
        Some(d) => d,
        None => { return Err(ProtocolError::EncodingError) },
    };
    let digest = sha256(pt.as_slice());
    if !(digest == expected_digest) {
        return Err(ProtocolError::DigestMismatch);
    }
    proof {
        assert(exists|k: Seq<u8>, n: Seq<u8>|
            k.len() == 32 && n.len() == 12 && ciphertext@ == #[trigger] aead_enc(k, n, pt@)) by {
            assert(ciphertext@ == aead_enc(key@, nonce@, pt@));
        }
    }
    Ok(pt)
}

/// Encrypts one chunk of a chunked media stream; the chunk's nonce is
/// derived deterministically from the base nonce and the chunk index, so
/// the same inputs always produce the same ciphertext.
pub fn encrypt_media_chunk(key: &[u8], base_nonce: &[u8], chunk_index: u32, data: &[u8]) -> (r:
    Result<Vec<u8>, ProtocolError>)
    requires
        data@.len() <= AEAD_PT_MAX,
    ensures
        key@.len() == 32 && base_nonce@.len() >= 8 ==> r is Ok && r->Ok_0@ == aead_enc(
            key@,
            chunk_nonce_of(base_nonce@, chunk_index),
            data@,
        ),
        key@.len() != 32 || base_nonce@.len() < 8 ==> r == Err::<Vec<u8>, ProtocolError>(
            ProtocolError::InvalidKeyMaterial,
        ),
{
    if key.len() != 32 || base_nonce.len() < 8 {
        return Err(ProtocolError::InvalidKeyMaterial);
    }
    let nonce = chunk_nonce(base_nonce, chunk_index);
    Ok(aead_encrypt(key, nonce.as_slice(), data))
}

/// Decrypts one chunk of a chunked media stream; succeeds exactly on
/// ciphertexts produced under the same key, base nonce and chunk index.
pub fn decrypt_media_chunk(key: &[u8], base_nonce: &[u8], chunk_index: u32, ciphertext: &[u8]) -> (
    r: Result<Vec<u8>, ProtocolError>)
    ensures
        forall|p: Seq<u8>|
            key@.len() == 32 && base_nonce@.len() >= 8 && ciphertext@ == aead_enc(
                key@,
                chunk_nonce_of(base_nonce@, chunk_index),
                p,
            ) ==> r is Ok && r->Ok_0@ == p,
        r matches Ok(pt) ==> key@.len() == 32 && base_nonce@.len() >= 8 && ciphertext@ == aead_enc(
            key@,
            chunk_nonce_of(base_nonce@, chunk_index),
            pt@,
        ),
        key@.len() != 32 || base_nonce@.len() < 8 ==> r == Err::<Vec<u8>, ProtocolError>(
            ProtocolError::InvalidKeyMaterial,
        ),
        forall|i2: u32, p2: Seq<u8>|
            key@.len() == 32 && base_nonce@.len() >= 8 && i2 != chunk_index && ciphertext@
                == #[trigger] aead_enc(key@, chunk_nonce_of(base_nonce@, i2), p2) ==> r == Err::<
                Vec<u8>,
                ProtocolError,
            >(ProtocolError::AuthenticationFailed),
{
    if key.len() != 32 || base_nonce.len() < 8 {
        return Err(ProtocolError::InvalidKeyMaterial);
    }
    let nonce = chunk_nonce(base_nonce, chunk_index);
    match aead_decrypt(key, nonce.as_slice(), ciphertext) {
        Some(p) => {
            proof {
                assert forall|i2: u32, p2: Seq<u8>|
                    i2 != chunk_index && ciphertext@ == #[trigger] aead_enc(
                        key@,
                        chunk_nonce_of(base_nonce@, i2),
                        p2,
                    ) implies false by {
                    lemma_chunk_nonce_distinct(base_nonce@, i2, chunk_index);
                    assert(chunk_nonce_of(base_nonce@, i2).len() == 12);
                }
            }
            Ok(p)
        },
        None => Err(ProtocolError::AuthenticationFailed),
    }
}

/// Encrypts a whole media payload and returns the ciphertext as hex text
/// beside the key bundle, the form in which the host ships it.
pub fn protocol_encrypt_media(data: &[u8], file_name: &str, file_type: &str) -> (r: Result<
    (String, MediaKeyBundle),
    ProtocolError,
>)
    requires
        data@.len() <= AEAD_PT_MAX,
    ensures
        r is Ok,
        r matches Ok(p) ==> {
            &&& exists|k: Seq<u8>, n: Seq<u8>|
                {
                    &&& k.len() == 32
                    &&& n.len() == 12
                    &&& p.1.key@ == b64_of(k)
                    &&& p.1.nonce@ == b64_of(n)
                    &&& exists|c: Seq<u8>| p.0@ == hex_of(c) && c == #[trigger] aead_enc(k, n, data@)
                }
            &&& p.0@.len() == 2 * (data@.len() + 16)
            &&& p.1.digest@ == b64_of(sha256_of(data@))
            &&& p.1.file_name@ == file_name@
            &&& p.1.file_type@ == file_type@
            &&& !p.1.is_chunked
        },
{
    let (ciphertext, bundle) = match encrypt_media(data, file_name, file_type) {
        Ok(p) => p,
        Err(e) => { return Err(e) },
    };
    proof {
        crate::bytes::lemma_hex_of_len(ciphertext@);
    }
    Ok((hex_encode(ciphertext.as_slice()), bundle))
}

/// Decrypts a whole media payload handed over as hex text beside its key
/// bundle.  Fails with `EncodingError` when the text is not the hex form
/// of any ciphertext.
pub fn protocol_decrypt_media(hex_data: &str, bundle: &MediaKeyBundle) -> (r: Result<
    Vec<u8>,
    ProtocolError,
>)
    ensures
        forall|k: Seq<u8>, n: Seq<u8>, p: Seq<u8>, c: Seq<u8>|
            {
                &&& !bundle.is_chunked
                &&& k.len() == 32
                &&& n.len() == 12
                &&& bundle.key@ == b64_of(k)
                &&& bundle.nonce@ == b64_of(n)
                &&& bundle.digest@ == b64_of(sha256_of(p))
                &&& hex_data@ == #[trigger] hex_of(c)
                &&& c == #[trigger] aead_enc(k, n, p)
            } ==> r is Ok && r->Ok_0@ == p,
        r matches Ok(pt) ==> forall|c: Seq<u8>|
            hex_data@ == #[trigger] hex_of(c) ==> exists|k: Seq<u8>, n: Seq<u8>|
                k.len() == 32 && n.len() == 12 && c == #[trigger] aead_enc(k, n, pt@),
{
    let ciphertext = match hex_decode(hex_data) {
        Some(c) => c,
        None => { return Err(ProtocolError::EncodingError) },
    };
    decrypt_media(ciphertext.as_slice(), bundle)
}

/// Encrypts one media chunk with key and base nonce handed over as
/// base64 text.
pub fn protocol_encrypt_media_chunk(key_b64: &str, nonce_b64: &str, chunk_index: u32, data: &[u8])
    -> (r: Result<Vec<u8>, ProtocolError>)
    requires
        data@.len() <= AEAD_PT_MAX,
    ensures
        forall|k: Seq<u8>, n: Seq<u8>|
            key_b64@ == b64_of(k) && nonce_b64@ == #[trigger] b64_of(n) && k.len() == 32 && n.len()
                >= 8 ==> r is Ok && r->Ok_0@ == #[trigger] aead_enc(
                k,
                chunk_nonce_of(n, chunk_index),
                data@,
            ),
{
    let key = match decode_b64(key_b64) {
        Some(k) => k,
        None => { return Err(ProtocolError::EncodingError) },
    };
    let nonce = match decode_b64(nonce_b64) {
        Some(n) => n,
        None => { return Err(ProtocolError::EncodingError) },
    };
    encrypt_media_chunk(key.as_slice(), nonce.as_slice(), chunk_index, data)
}

/// Decrypts one media chunk with key and base nonce handed over as
/// base64 text.
pub fn protocol_decrypt_media_chunk(
    key_b64: &str,
    nonce_b64: &str,
    chunk_index: u32,
    ciphertext: &[u8],
) -> (r: Result<Vec<u8>, ProtocolError>)
    ensures
        forall|k: Seq<u8>, n: Seq<u8>, p: Seq<u8>|
            key_b64@ == b64_of(k) && nonce_b64@ == #[trigger] b64_of(n) && k.len() == 32 && n.len()
                >= 8 && ciphertext@ == #[trigger] aead_enc(k, chunk_nonce_of(n, chunk_index), p)
                ==> r is Ok && r->Ok_0@ == p,
{
    let key = match decode_b64(key_b64) {
        Some(k) => k,
        None => { return Err(ProtocolError::EncodingError) },
    };
    let nonce = match decode_b64(nonce_b64) {
        Some(n) => n,
        None => { return Err(ProtocolError::EncodingError) },
    };
    decrypt_media_chunk(key.as_slice(), nonce.as_slice(), chunk_index, ciphertext)
}

/// Builds the 12-byte nonce of one chunk.
fn chunk_nonce(base_nonce: &[u8], chunk_index: u32) -> (r: Vec<u8>)
    requires
        base_nonce@.len() >= 8,
    ensures
        r@ == chunk_nonce_of(base_nonce@, chunk_index),
        r@.len() == 12,
{
    let head = vstd::slice::slice_subrange(base_nonce, 0, 8);
    let mut nonce = vstd::slice::slice_to_vec(head);
    let tail = be32(chunk_index);
    append_bytes(&mut nonce, tail.as_slice());
    proof {
        assert(base_nonce@.subrange(0, 8) =~= base_nonce@.take(8));
    }
    nonce
}

/// Distinct chunk indices give distinct nonces under the same base nonce:
/// the deterministic nonce schedule never reuses a (key, nonce) pair
/// within one stream.
pub proof fn lemma_chunk_nonce_distinct(base: Seq<u8>, i: u32, j: u32)
    requires
        base.len() >= 8,
        i != j,
    ensures
        chunk_nonce_of(base, i) != chunk_nonce_of(base, j),
{
    if chunk_nonce_of(base, i) == chunk_nonce_of(base, j) {
        assert(chunk_nonce_of(base, i).skip(8) =~= be32_of(i));
        assert(chunk_nonce_of(base, j).skip(8) =~= be32_of(j));
        crate::bytes::lemma_be32_injective(i, j);
    }
}

} // verus!
