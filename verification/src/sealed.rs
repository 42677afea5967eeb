//! Sealed sender: encrypting an envelope straight to a recipient's static
//! public keys, before any session exists, without revealing the sender to
//! network intermediaries.
//!
//! A fresh ephemeral classical keypair and a post-quantum encapsulation
//! against the recipient's KEM identity key yield a one-time secret; the
//! asserted sender identity and the message body are framed together and
//! encrypted under a key and nonce derived from that secret.  Only the
//! recipient's private keys can reverse the derivation.

use vstd::prelude::*;
use crate::errors::ProtocolError;
use crate::crypto::aead_enc;
use crate::crypto::aead_encrypt;
use crate::crypto::aead_decrypt;
use crate::crypto::x25519_pub_of;
use crate::crypto::x25519_secret;
use crate::crypto::x25519_public;
use crate::crypto::x25519_dh;
use crate::crypto::kyber_pub_of;
use crate::crypto::kyber_decap_of;
use crate::crypto::kyber_encapsulate;
use crate::crypto::kyber_decapsulate;
use crate::crypto::random_bytes;
use crate::crypto::AEAD_PT_MAX;
use crate::kdf::derived_key_of;
use crate::kdf::derived_key;
use crate::bytes::be32_of;
use crate::bytes::be32;
use crate::bytes::read_be32;
use crate::bytes::append_bytes;

verus! {

/// Domain prefix of the sealed-sender encryption key.
pub const TAG_SEAL_KEY: u8 = 32;

/// Domain prefix of the sealed-sender nonce.
pub const TAG_SEAL_NONCE: u8 = 33;

/// The framed inner structure: sender length, sender identity, message.
pub open spec fn sealed_payload_of(sender: Seq<u8>, message: Seq<u8>) -> Seq<u8> {
    be32_of(sender.len() as u32) + sender + message
}

/// The one-time AEAD key of a sealed envelope, from the classical and
/// post-quantum shared secrets.
pub open spec fn seal_key_of(dh: Seq<u8>, pq: Seq<u8>) -> Seq<u8> {
    derived_key_of(TAG_SEAL_KEY, dh + pq)
}

/// The one-time AEAD nonce of a sealed envelope.
pub open spec fn seal_nonce_of(dh: Seq<u8>, pq: Seq<u8>) -> Seq<u8> {
    derived_key_of(TAG_SEAL_NONCE, dh + pq).take(12)
}

/// A sealed envelope: constructed and consumed per call, never persisted.
#[derive(Clone, Debug)]
pub struct SealedEnvelope {
    /// The fresh ephemeral classical public key.
    pub ephemeral_pub: Vec<u8>,
    /// The post-quantum KEM ciphertext against the recipient's identity.
    pub pq_ciphertext: Vec<u8>,
    /// The AEAD ciphertext of the framed sender identity and message.
    pub ciphertext: Vec<u8>,
}

/// Frames the asserted sender identity and the message body.
fn encode_sealed_payload(sender: &[u8], message: &[u8]) -> (r: Vec<u8>)
    requires
        sender@.len() <= 0xffff_ffff_u32,
    ensures
        r@ == sealed_payload_of(sender@, message@),
{
    let mut payload = be32(sender.len() as u32);
    append_bytes(&mut payload, sender);
    append_bytes(&mut payload, message);
    proof {
        assert(payload@ =~= sealed_payload_of(sender@, message@));
    }
    payload
}

/// Splits a framed payload back into sender identity and message body.
fn decode_sealed_payload(payload: &[u8]) -> (r: Result<(Vec<u8>, Vec<u8>), ProtocolError>)
    ensures
        forall|s: Seq<u8>, m: Seq<u8>|
            s.len() <= 0xffff_ffff_u32 && payload@ == #[trigger] sealed_payload_of(s, m) ==> r
                is Ok && r->Ok_0.0@ == s && r->Ok_0.1@ == m,
        r matches Ok(p) ==> payload@ == sealed_payload_of(p.0@, p.1@),
        r is Err ==> r == Err::<(Vec<u8>, Vec<u8>), ProtocolError>(ProtocolError::MalformedBundle),
{
    if payload.len() < 4 {
        return Err(ProtocolError::MalformedBundle);
    }
    let head = vstd::slice::slice_subrange(payload, 0, 4);
    let n32 = read_be32(head);
    let n = n32 as usize;
    if payload.len() - 4 < n {
        proof {
            assert forall|s: Seq<u8>, m: Seq<u8>|
                s.len() <= 0xffff_ffff_u32 && payload@ == #[trigger] sealed_payload_of(
                    s,
                    m,
                ) implies false by {
                assert(payload@.subrange(0, 4) =~= be32_of(s.len() as u32));
                crate::bytes::lemma_be32_injective(n32, s.len() as u32);
            }
        }
        return Err(ProtocolError::MalformedBundle);
    }
    let sender = vstd::slice::slice_to_vec(vstd::slice::slice_subrange(payload, 4, 4 + n));
    let message = vstd::slice::slice_to_vec(
        vstd::slice::slice_subrange(payload, 4 + n, payload.len()),
    );
    proof {
        assert(payload@ =~= sealed_payload_of(sender@, message@));
        assert forall|s: Seq<u8>, m: Seq<u8>|
            s.len() <= 0xffff_ffff_u32 && payload@ == #[trigger] sealed_payload_of(s, m) implies (
        sender@ == s && message@ == m) by {
            assert(payload@.subrange(0, 4) =~= be32_of(s.len() as u32));
            crate::bytes::lemma_be32_injective(n32, s.len() as u32);
            assert(s =~= payload@.subrange(4, 4 + s.len() as int));
            assert(m =~= payload@.subrange(4 + s.len() as int, payload@.len() as int));
        }
    }
    Ok((sender, message))
}

/// Seals a message and the asserted sender identity to a recipient's
/// static classical and post-quantum public keys.
pub fn seal_sender(
    message: &[u8],
    sender_identity: &[u8],
    recipient_dh_public: &[u8],
    recipient_pq_public: &[u8],
) -> (r: Result<SealedEnvelope, ProtocolError>)
    requires
        sender_identity@.len() <= 0xffff_ffff_u32,
        sender_identity@.len() + message@.len() + 4 <= AEAD_PT_MAX,
    ensures
        recipient_dh_public@.len() != 32 || recipient_pq_public@.len() != 1568 <==> r == Err::<
            SealedEnvelope,
            ProtocolError,
        >(ProtocolError::InvalidKeyMaterial),
        r matches Ok(env) ==> env.ephemeral_pub@.len() == 32 && env.pq_ciphertext@.len() == 1568,
        forall|rsk: Seq<u8>, pqsk: Seq<u8>|
            #![trigger x25519_pub_of(rsk), kyber_pub_of(pqsk)]
            recipient_dh_public@.len() == 32 && recipient_pq_public@.len() == 1568
                && recipient_dh_public@ == x25519_pub_of(rsk) && recipient_pq_public@
                == kyber_pub_of(pqsk) ==> r is Ok && (exists|esk: Seq<u8>|
                r->Ok_0.ephemeral_pub@ == #[trigger] x25519_pub_of(esk)
                    && r->Ok_0.ciphertext@ == aead_enc(
                    seal_key_of(
                        x25519_secret(esk, rsk),
                        kyber_decap_of(pqsk, r->Ok_0.pq_ciphertext@),
                    ),
                    seal_nonce_of(
                        x25519_secret(esk, rsk),
                        kyber_decap_of(pqsk, r->Ok_0.pq_ciphertext@),
                    ),
                    sealed_payload_of(sender_identity@, message@),
                )),
{
    if recipient_dh_public.len() != 32 || recipient_pq_public.len() != 1568 {
        return Err(ProtocolError::InvalidKeyMaterial);
    }
    let eph_private = random_bytes(32);
    let eph_public = x25519_public(eph_private.as_slice());
    let dh = x25519_dh(eph_private.as_slice(), recipient_dh_public);
    let (pq_ss, pq_ct) = kyber_encapsulate(recipient_pq_public);
    let mut secret = dh;
    append_bytes(&mut secret, pq_ss.as_slice());
    let key = derived_key(TAG_SEAL_KEY, &secret);
    let mut nonce = derived_key(TAG_SEAL_NONCE, &secret);
    nonce.truncate(12);
    let payload = encode_sealed_payload(sender_identity, message);
    let ciphertext = aead_encrypt(key.as_slice(), nonce.as_slice(), payload.as_slice());
    let env = SealedEnvelope { ephemeral_pub: eph_public, pq_ciphertext: pq_ct, ciphertext };
    proof {
        assert forall|rsk: Seq<u8>, pqsk: Seq<u8>|
            #![trigger x25519_pub_of(rsk), kyber_pub_of(pqsk)]
            recipient_dh_public@ == x25519_pub_of(rsk) && recipient_pq_public@
                == kyber_pub_of(pqsk) implies (exists|esk: Seq<u8>|
            env.ephemeral_pub@ == #[trigger] x25519_pub_of(esk) && env.ciphertext@ == aead_enc(
                seal_key_of(x25519_secret(esk, rsk), kyber_decap_of(pqsk, env.pq_ciphertext@)),
                seal_nonce_of(x25519_secret(esk, rsk), kyber_decap_of(pqsk, env.pq_ciphertext@)),
                sealed_payload_of(sender_identity@, message@),
            )) by {
            assert(nonce@ =~= seal_nonce_of(x25519_secret(eph_private@, rsk), pq_ss@));
            assert(env.ephemeral_pub@ == x25519_pub_of(eph_private@) && env.ciphertext@
                == aead_enc(
                seal_key_of(
                    x25519_secret(eph_private@, rsk),
                    kyber_decap_of(pqsk, env.pq_ciphertext@),
                ),
                seal_nonce_of(
                    x25519_secret(eph_private@, rsk),
                    kyber_decap_of(pqsk, env.pq_ciphertext@),
                ),
                sealed_payload_of(sender_identity@, message@),
            ));
        }
    }
    Ok(env)
}

/// Opens a sealed envelope with the recipient's own private keys and
/// returns the asserted sender identity and the message body.
pub fn unseal_sender(envelope: &SealedEnvelope, my_dh_private: &[u8], my_pq_private: &[u8]) -> (r:
    Result<(Vec<u8>, Vec<u8>), ProtocolError>)
    requires
        my_dh_private@.len() == 32,
        my_pq_private@.len() == 3168,
    ensures
        envelope.ephemeral_pub@.len() != 32 || envelope.pq_ciphertext@.len() != 1568 <==> r
            == Err::<(Vec<u8>, Vec<u8>), ProtocolError>(ProtocolError::InvalidKeyMaterial),
        forall|esk: Seq<u8>, s: Seq<u8>, m: Seq<u8>|
            envelope.ephemeral_pub@.len() == 32 && envelope.pq_ciphertext@.len() == 1568
                && envelope.ephemeral_pub@ == #[trigger] x25519_pub_of(esk) && s.len()
                <= 0xffff_ffff_u32 && envelope.ciphertext@ == aead_enc(
                seal_key_of(
                    x25519_secret(esk, my_dh_private@),
                    kyber_decap_of(my_pq_private@, envelope.pq_ciphertext@),
                ),
                seal_nonce_of(
                    x25519_secret(esk, my_dh_private@),
                    kyber_decap_of(my_pq_private@, envelope.pq_ciphertext@),
                ),
                #[trigger] sealed_payload_of(s, m),
            ) ==> r is Ok && r->Ok_0.0@ == s && r->Ok_0.1@ == m,
        forall|esk: Seq<u8>|
            envelope.ephemeral_pub@.len() == 32 && envelope.pq_ciphertext@.len() == 1568
                && envelope.ephemeral_pub@ == #[trigger] x25519_pub_of(esk) && r is Ok
                ==> envelope.ciphertext@ == aead_enc(
                seal_key_of(
                    x25519_secret(esk, my_dh_private@),
                    kyber_decap_of(my_pq_private@, envelope.pq_ciphertext@),
                ),
                seal_nonce_of(
                    x25519_secret(esk, my_dh_private@),
                    kyber_decap_of(my_pq_private@, envelope.pq_ciphertext@),
                ),
                sealed_payload_of(r->Ok_0.0@, r->Ok_0.1@),
            ),
        r is Err ==> r == Err::<(Vec<u8>, Vec<u8>), ProtocolError>(ProtocolError::InvalidKeyMaterial)
            || r == Err::<(Vec<u8>, Vec<u8>), ProtocolError>(ProtocolError::AuthenticationFailed)
            || r == Err::<(Vec<u8>, Vec<u8>), ProtocolError>(ProtocolError::MalformedBundle),
{
    if envelope.ephemeral_pub.len() != 32 || envelope.pq_ciphertext.len() != 1568 {
        return Err(ProtocolError::InvalidKeyMaterial);
    }
    let dh = x25519_dh(my_dh_private, envelope.ephemeral_pub.as_slice());
    let pq_ss = kyber_decapsulate(my_pq_private, envelope.pq_ciphertext.as_slice());
    let mut secret = dh;
    append_bytes(&mut secret, pq_ss.as_slice());
    let key = derived_key(TAG_SEAL_KEY, &secret);
    let mut nonce = derived_key(TAG_SEAL_NONCE, &secret);
    nonce.truncate(12);
    let payload = match aead_decrypt(
        key.as_slice(),
        nonce.as_slice(),
        envelope.ciphertext.as_slice(),
    ) {
        Some(p) => p,
        None => { return Err(ProtocolError::AuthenticationFailed) },
    };
    decode_sealed_payload(payload.as_slice())
}

} // verus!
