//! Safety numbers: a deterministic, order-independent digest of two
//! identity keys that both peers can compute and compare out of band.

use vstd::prelude::*;
use crate::errors::ProtocolError;
use crate::crypto::sha256;
use crate::crypto::sha256_of;
use crate::crypto::b64_of;
use crate::crypto::decode_b64;
use crate::crypto::hex_encode;
use crate::bytes::hex_of;
use crate::bytes::lex_le;
use crate::bytes::lex_le_bytes;
use crate::bytes::lemma_lex_total;
use crate::bytes::lemma_lex_antisymmetric;
use crate::bytes::append_bytes;

verus! {

/// The safety number of two identity keys: the hex digest of their
/// concatenation in lexicographic order, so neither side's notion of
/// "local" changes the value.
pub open spec fn safety_number_of(a: Seq<u8>, b: Seq<u8>) -> Seq<char> {
    if lex_le(a, b) {
        hex_of(sha256_of(a + b))
    } else {
        hex_of(sha256_of(b + a))
    }
}

/// The safety number does not depend on which key is local: both peers
/// compute the same text from the same two identity keys.
pub proof fn lemma_fingerprint_symmetric(a: Seq<u8>, b: Seq<u8>)
    ensures
        safety_number_of(a, b) == safety_number_of(b, a),
{
    lemma_lex_total(a, b);
    if lex_le(a, b) && lex_le(b, a) {
        lemma_lex_antisymmetric(a, b);
    }
}

/// Computes the safety number of two identity keys given as raw bytes.
pub fn calculate_safety_number(a: &[u8], b: &[u8]) -> (r: String)
    ensures
        r@ == safety_number_of(a@, b@),
{
    let mut low: Vec<u8>;
    if lex_le_bytes(a, b) {
        low = vstd::slice::slice_to_vec(a);
        append_bytes(&mut low, b);
        proof {
            assert(low@ == a@ + b@);
        }
    } else {
        low = vstd::slice::slice_to_vec(b);
        append_bytes(&mut low, a);
        proof {
            assert(low@ == b@ + a@);
        }
    }
    let digest = sha256(low.as_slice());
    hex_encode(digest.as_slice())
}

/// Computes the safety number of two base64-encoded identity keys, as the
/// host hands them over.  Fails with `EncodingError` when either key is
/// not valid base64.
pub fn protocol_get_safety_number(me_ik: &str, peer_ik: &str) -> (r: Result<String, ProtocolError>)
    ensures
        forall|ka: Seq<u8>, kb: Seq<u8>|
            me_ik@ == b64_of(ka) && peer_ik@ == #[trigger] b64_of(kb) ==> r is Ok && r->Ok_0@
                == #[trigger] safety_number_of(ka, kb),
        r is Err ==> r == Err::<String, ProtocolError>(ProtocolError::EncodingError),
{
    let ka = match decode_b64(me_ik) {
        Some(k) => k,
        None => { return Err(ProtocolError::EncodingError) },
    };
    let kb = match decode_b64(peer_ik) {
        Some(k) => k,
        None => { return Err(ProtocolError::EncodingError) },
    };
    Ok(calculate_safety_number(ka.as_slice(), kb.as_slice()))
}

} // verus!
