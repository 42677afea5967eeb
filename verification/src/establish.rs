//! The asynchronous handshake that seeds a ratchet session.
//!
//! The initiator consumes a peer's published bundle: it verifies the
//! signed pre-key's signature, runs the classical Diffie-Hellman
//! combinations between its identity/ephemeral keys and the peer's
//! identity, signed pre-key and optional one-time pre-key, encapsulates a
//! post-quantum secret against the peer's KEM identity, and derives the
//! root and chain keys from the concatenated secrets under fixed domain
//! tags.  The responder derives the same secrets from the handshake
//! ephemera attached to the first message: both directions state their
//! chains over the one shared formula `x3dh_shared_secrets`.

use vstd::prelude::*;
use crate::errors::ProtocolError;
use crate::crypto::x25519_pub_of;
use crate::crypto::x25519_secret;
use crate::crypto::x25519_public;
use crate::crypto::x25519_dh;
use crate::crypto::ed25519_pub_of;
use crate::crypto::ed25519_sig_of;
use crate::crypto::ed25519_verify;
use crate::crypto::kyber_pub_of;
use crate::crypto::kyber_decap_of;
use crate::crypto::kyber_encapsulate;
use crate::crypto::kyber_decapsulate;
use crate::crypto::random_bytes;
use crate::kdf::derived_key_of;
use crate::kdf::derived_key;
use crate::kdf::step_key;
use crate::kdf::msg_key_of;
use crate::kdf::msg_nonce_of;
use crate::crypto::aead_enc;
use crate::ratchet::MAX_SKIP;
use crate::kdf::TAG_ROOT;
use crate::kdf::TAG_CHAIN_A;
use crate::kdf::TAG_CHAIN_B;
use crate::bytes::append_bytes;
use crate::identity::ProtocolIdentity;
use crate::identity::PreKeyBundle;
use crate::identity::wf_identity;
use crate::ratchet::Session;
use crate::ratchet::HandshakeHeader;
use crate::ratchet::RatchetMessage;
use crate::ratchet::wf_session;
use crate::ratchet::ratchet_decrypt;

verus! {

/// The concatenation of the handshake secrets, in the fixed wire order:
/// the Diffie-Hellman outputs, the optional one-time output, then the
/// post-quantum secret.
pub open spec fn x3dh_secrets(
    dh1: Seq<u8>,
    dh2: Seq<u8>,
    dh3: Seq<u8>,
    dh4: Option<Seq<u8>>,
    pq: Seq<u8>,
) -> Seq<u8> {
    match dh4 {
        Some(d4) => dh1 + dh2 + dh3 + d4 + pq,
        None => dh1 + dh2 + dh3 + pq,
    }
}

/// The handshake secrets as a function of both sides' private scalars:
/// initiator identity `bik` and ephemeral `beph`, responder identity
/// `aik`, signed pre-key `aspk` and optional one-time pre-key `aot`, and
/// the post-quantum shared secret.  Both handshake directions derive
/// their chains from this one formula.
pub open spec fn x3dh_shared_secrets(
    bik: Seq<u8>,
    beph: Seq<u8>,
    aik: Seq<u8>,
    aspk: Seq<u8>,
    aot: Option<Seq<u8>>,
    pq_ss: Seq<u8>,
) -> Seq<u8> {
    x3dh_secrets(
        x25519_secret(bik, aspk),
        x25519_secret(beph, aik),
        x25519_secret(beph, aspk),
        match aot {
            Some(o) => Some(x25519_secret(beph, o)),
            None => None,
        },
        pq_ss,
    )
}

/// The session root key of a handshake.
pub open spec fn root_key_of(secrets: Seq<u8>) -> Seq<u8> {
    derived_key_of(TAG_ROOT, secrets)
}

/// The initiator-to-responder chain seed.
pub open spec fn chain_a_of(secrets: Seq<u8>) -> Seq<u8> {
    derived_key_of(TAG_CHAIN_A, secrets)
}

/// The responder-to-initiator chain seed.
pub open spec fn chain_b_of(secrets: Seq<u8>) -> Seq<u8> {
    derived_key_of(TAG_CHAIN_B, secrets)
}

/// Whether the bundle's byte fields have the lengths the handshake
/// needs.
pub open spec fn bundle_lens_ok(bundle: PreKeyBundle) -> bool {
    &&& bundle.identity_key@.len() == 32
    &&& bundle.signing_key@.len() == 32
    &&& bundle.pq_identity_key@.len() == 1568
    &&& bundle.signed_pre_key@.len() == 32
    &&& bundle.signed_pre_key_signature@.len() == 64
    &&& bundle.one_time_pre_key matches Some(p) ==> p.public_key@.len() == 32
}

/// Builds the initiator's session from a peer's published bundle.
///
/// Verifies the signed pre-key's signature against the peer's identity,
/// derives the secrets, and returns a fresh, unverified session whose
/// pending handshake ephemera tag outgoing messages until the peer
/// answers.  The session overwrites any prior session for that peer; the
/// keying by peer fingerprint is the host's concern.
pub fn establish_outbound_session(identity: &ProtocolIdentity, bundle: &PreKeyBundle) -> (r: Result<
    Session,
    ProtocolError,
>)
    requires
        wf_identity(*identity),
    ensures
        !bundle_lens_ok(*bundle) <==> r == Err::<Session, ProtocolError>(
            ProtocolError::MalformedBundle,
        ),
        r is Err ==> r == Err::<Session, ProtocolError>(ProtocolError::MalformedBundle) || r
            == Err::<Session, ProtocolError>(ProtocolError::InvalidSignature),
        forall|essk: Seq<u8>|
            bundle_lens_ok(*bundle) && bundle.signing_key@ == #[trigger] ed25519_pub_of(essk)
                && bundle.signed_pre_key_signature@ == ed25519_sig_of(
                essk,
                bundle.signed_pre_key@,
            ) ==> r is Ok,
        r matches Ok(sess) ==> wf_session(sess) && exists|esk: Seq<u8>|
            #![trigger x25519_pub_of(esk)]
            {
                &&& sess.pending_handshake matches Some(h)
                &&& h.identity_pub@ == identity.dh_public@
                &&& h.identity_pub@.len() == 32
                &&& h.ephemeral_pub@ == x25519_pub_of(esk)
                &&& h.ephemeral_pub@.len() == 32
                &&& h.signed_pre_key_id == bundle.signed_pre_key_id
                &&& h.pq_ciphertext@.len() == 1568
                &&& (bundle.one_time_pre_key matches Some(po) ==> h.one_time_pre_key_id == Some(
                    po.key_id,
                ))
                &&& (bundle.one_time_pre_key is None ==> h.one_time_pre_key_id is None)
                &&& sess.send_counter == 0
                &&& sess.recv_counter == 0
                &&& sess.skipped@.len() == 0
                &&& !sess.verified
                &&& (bundle.one_time_pre_key is None ==> forall|
                    aik: Seq<u8>,
                    aspk: Seq<u8>,
                    apq: Seq<u8>,
                |
                    #![trigger x25519_pub_of(aik), x25519_pub_of(aspk), kyber_pub_of(apq)]
                    bundle.identity_key@ == x25519_pub_of(aik) && bundle.signed_pre_key@
                        == x25519_pub_of(aspk) && bundle.pq_identity_key@ == kyber_pub_of(apq)
                        ==> ({
                        let secrets = x3dh_shared_secrets(
                            identity.dh_private@,
                            esk,
                            aik,
                            aspk,
                            None,
                            kyber_decap_of(apq, h.pq_ciphertext@),
                        );
                        sess.root_key@ == root_key_of(secrets) && sess.send_chain_key@
                            == chain_a_of(secrets) && sess.recv_chain_key@ == chain_b_of(secrets)
                    }))
                &&& (bundle.one_time_pre_key matches Some(po) ==> forall|
                    aik: Seq<u8>,
                    aspk: Seq<u8>,
                    aot: Seq<u8>,
                    apq: Seq<u8>,
                |
                    #![trigger x25519_pub_of(aik), x25519_pub_of(aspk), x25519_pub_of(aot), kyber_pub_of(apq)]
                    bundle.identity_key@ == x25519_pub_of(aik) && bundle.signed_pre_key@
                        == x25519_pub_of(aspk) && po.public_key@ == x25519_pub_of(aot)
                        && bundle.pq_identity_key@ == kyber_pub_of(apq) ==> ({
                        let secrets = x3dh_shared_secrets(
                            identity.dh_private@,
                            esk,
                            aik,
                            aspk,
                            Some(aot),
                            kyber_decap_of(apq, h.pq_ciphertext@),
                        );
                        sess.root_key@ == root_key_of(secrets) && sess.send_chain_key@
                            == chain_a_of(secrets) && sess.recv_chain_key@ == chain_b_of(secrets)
                    }))
            },
{
    let lens_ok = bundle.identity_key.len() == 32 && bundle.signing_key.len() == 32
        && bundle.pq_identity_key.len() == 1568 && bundle.signed_pre_key.len() == 32
        && bundle.signed_pre_key_signature.len() == 64 && (match &bundle.one_time_pre_key {
        Some(p) => p.public_key.len() == 32,
        None => true,
    });
    if !lens_ok {
        return Err(ProtocolError::MalformedBundle);
    }
    if !ed25519_verify(
        bundle.signing_key.as_slice(),
        bundle.signed_pre_key.as_slice(),
        bundle.signed_pre_key_signature.as_slice(),
    ) {
        return Err(ProtocolError::InvalidSignature);
    }
    let eph_private = random_bytes(32);
    let eph_public = x25519_public(eph_private.as_slice());
    let dh1 = x25519_dh(identity.dh_private.as_slice(), bundle.signed_pre_key.as_slice());
    let dh2 = x25519_dh(eph_private.as_slice(), bundle.identity_key.as_slice());
    let dh3 = x25519_dh(eph_private.as_slice(), bundle.signed_pre_key.as_slice());
    let (pq_ss, pq_ct) = kyber_encapsulate(bundle.pq_identity_key.as_slice());
    let mut secrets = dh1;
    append_bytes(&mut secrets, dh2.as_slice());
    append_bytes(&mut secrets, dh3.as_slice());
    let one_time_pre_key_id: Option<u32> = match &bundle.one_time_pre_key {
        Some(po) => {
            let dh4 = x25519_dh(eph_private.as_slice(), po.public_key.as_slice());
            append_bytes(&mut secrets, dh4.as_slice());
            Some(po.key_id)
        },
        None => None,
    };
    append_bytes(&mut secrets, pq_ss.as_slice());
    let root_key = derived_key(TAG_ROOT, &secrets);
    let send_chain_key = derived_key(TAG_CHAIN_A, &secrets);
    let recv_chain_key = derived_key(TAG_CHAIN_B, &secrets);
    let header = HandshakeHeader {
        identity_pub: vstd::slice::slice_to_vec(identity.dh_public.as_slice()),
        ephemeral_pub: eph_public,
        pq_ciphertext: pq_ct,
        signed_pre_key_id: bundle.signed_pre_key_id,
        one_time_pre_key_id,
    };
    let sess = Session {
        root_key,
        send_chain_key,
        send_counter: 0,
        recv_chain_key,
        recv_counter: 0,
        skipped: Vec::new(),
        verified: false,
        pending_handshake: Some(header),
    };
    Ok(sess)
}

/// Whether the header's byte fields have the lengths the handshake
/// needs.
pub open spec fn header_lens_ok(h: HandshakeHeader) -> bool {
    &&& h.identity_pub@.len() == 32
    &&& h.ephemeral_pub@.len() == 32
    &&& h.pq_ciphertext@.len() == 1568
}

/// Whether the identity's pre-key pool holds the id a header names.
pub open spec fn has_pre_key(identity: ProtocolIdentity, h: HandshakeHeader) -> bool {
    h.one_time_pre_key_id matches Some(id) ==> exists|i: int|
        0 <= i < identity.pre_keys@.len() && (#[trigger] identity.pre_keys@[i]).key_id == id
}

/// Completes the handshake on the responder side, from the ephemera the
/// initiator attached to its first message, deriving the mirrored
/// session: the responder's receiving chain is the initiator's sending
/// chain and vice versa.
pub fn establish_inbound_session(identity: &ProtocolIdentity, header: &HandshakeHeader) -> (r:
    Result<Session, ProtocolError>)
    requires
        wf_identity(*identity),
    ensures
        r is Ok <==> header_lens_ok(*header) && has_pre_key(*identity, *header),
        !header_lens_ok(*header) <==> r == Err::<Session, ProtocolError>(
            ProtocolError::MalformedBundle,
        ),
        header_lens_ok(*header) && !has_pre_key(*identity, *header) <==> r == Err::<
            Session,
            ProtocolError,
        >(ProtocolError::MissingPreKey),
        r matches Ok(sess) ==> wf_session(sess) && sess.send_counter == 0 && sess.recv_counter == 0
            && sess.skipped@.len() == 0 && !sess.verified && sess.pending_handshake is None
            && forall|bik: Seq<u8>, beph: Seq<u8>|
            #![trigger x25519_pub_of(bik), x25519_pub_of(beph)]
            header.identity_pub@ == x25519_pub_of(bik) && header.ephemeral_pub@ == x25519_pub_of(
                beph,
            ) ==> ({
                let aot = match header.one_time_pre_key_id {
                    Some(id) => Some(pre_key_private(*identity, id)),
                    None => None,
                };
                let secrets = x3dh_shared_secrets(
                    bik,
                    beph,
                    identity.dh_private@,
                    identity.signed_pre_key.private_key@,
                    aot,
                    kyber_decap_of(identity.pq_private@, header.pq_ciphertext@),
                );
                sess.root_key@ == root_key_of(secrets) && sess.recv_chain_key@ == chain_a_of(
                    secrets,
                ) && sess.send_chain_key@ == chain_b_of(secrets)
            }),
{
    if header.identity_pub.len() != 32 || header.ephemeral_pub.len() != 32
        || header.pq_ciphertext.len() != 1568 {
        return Err(ProtocolError::MalformedBundle);
    }
    let otpk_private: Option<Vec<u8>> = match header.one_time_pre_key_id {
        None => None,
        Some(id) => {
            match find_pre_key(identity, id) {
                Some(i) => Some(
                    vstd::slice::slice_to_vec(identity.pre_keys[i].private_key.as_slice()),
                ),
                None => { return Err(ProtocolError::MissingPreKey) },
            }
        },
    };
    let dh1 = x25519_dh(
        identity.signed_pre_key.private_key.as_slice(),
        header.identity_pub.as_slice(),
    );
    let dh2 = x25519_dh(identity.dh_private.as_slice(), header.ephemeral_pub.as_slice());
    let dh3 = x25519_dh(
        identity.signed_pre_key.private_key.as_slice(),
        header.ephemeral_pub.as_slice(),
    );
    let mut secrets = dh1;
    append_bytes(&mut secrets, dh2.as_slice());
    append_bytes(&mut secrets, dh3.as_slice());
    match &otpk_private {
        Some(op) => {
            let dh4 = x25519_dh(op.as_slice(), header.ephemeral_pub.as_slice());
            append_bytes(&mut secrets, dh4.as_slice());
        },
        None => {},
    }
    let pq_ss = kyber_decapsulate(identity.pq_private.as_slice(), header.pq_ciphertext.as_slice());
    append_bytes(&mut secrets, pq_ss.as_slice());
    let root_key = derived_key(TAG_ROOT, &secrets);
    let recv_chain_key = derived_key(TAG_CHAIN_A, &secrets);
    let send_chain_key = derived_key(TAG_CHAIN_B, &secrets);
    Ok(
        Session {
            root_key,
            send_chain_key,
            send_counter: 0,
            recv_chain_key,
            recv_counter: 0,
            skipped: Vec::new(),
            verified: false,
            pending_handshake: None,
        },
    )
}

/// The handshake secrets the responder derives from a header, as a
/// function of the initiator's private scalars behind the header's
/// public keys.
pub open spec fn inbound_secrets(
    identity: ProtocolIdentity,
    h: HandshakeHeader,
    bik: Seq<u8>,
    beph: Seq<u8>,
) -> Seq<u8> {
    x3dh_shared_secrets(
        bik,
        beph,
        identity.dh_private@,
        identity.signed_pre_key.private_key@,
        match h.one_time_pre_key_id {
            Some(id) => Some(pre_key_private(identity, id)),
            None => None,
        },
        kyber_decap_of(identity.pq_private@, h.pq_ciphertext@),
    )
}

/// The receiving chain the responder seeds from a header: the
/// initiator's sending chain.
pub open spec fn inbound_recv_chain(
    identity: ProtocolIdentity,
    h: HandshakeHeader,
    bik: Seq<u8>,
    beph: Seq<u8>,
) -> Seq<u8> {
    chain_a_of(inbound_secrets(identity, h, bik, beph))
}

/// The sending chain the responder seeds from a header: the reply
/// direction.
pub open spec fn inbound_send_chain(
    identity: ProtocolIdentity,
    h: HandshakeHeader,
    bik: Seq<u8>,
    beph: Seq<u8>,
) -> Seq<u8> {
    chain_b_of(inbound_secrets(identity, h, bik, beph))
}

/// The private scalar of the pooled pre-key with the given id (the first
/// such entry).
pub open spec fn pre_key_private(identity: ProtocolIdentity, id: u32) -> Seq<u8> {
    identity.pre_keys@[pre_key_index(identity, id)].private_key@
}

/// The index of the first pooled pre-key with the given id.
pub open spec fn pre_key_index(identity: ProtocolIdentity, id: u32) -> int {
    choose|i: int| 0 <= i < identity.pre_keys@.len() && (#[trigger] identity.pre_keys@[i]).key_id
        == id
}

/// Finds the pooled pre-key with the given id.
fn find_pre_key(identity: &ProtocolIdentity, id: u32) -> (r: Option<usize>)
    ensures
        r matches Some(i) ==> i < identity.pre_keys@.len() && identity.pre_keys@[i as int].key_id
            == id,
        r is None ==> forall|i: int|
            0 <= i < identity.pre_keys@.len() ==> (#[trigger] identity.pre_keys@[i]).key_id != id,
{
    let mut i: usize = 0;
    while i < identity.pre_keys.len()
        invariant
            i <= identity.pre_keys@.len(),
            forall|j: int|
                0 <= j < i ==> (#[trigger] identity.pre_keys@[j]).key_id != id,
        decreases identity.pre_keys@.len() - i,
    {
        if identity.pre_keys[i].key_id == id {
            return Some(i);
        }
        i = i + 1;
    }
    None
}

/// Receives one message: decrypts against the existing session, or, when
/// none exists and the message carries handshake ephemera, completes the
/// handshake first and decrypts against the fresh session.  The session
/// is only replaced when decryption succeeds; a message with no session
/// and no ephemera fails with `SessionNotFound`.
///
/// With an existing session this owes exactly what `ratchet_decrypt`
/// owes; with none, a well-formed first message whose ciphertext is
/// genuine under the chain the inbound derivation yields decrypts to its
/// plaintext, and the stored session's reply chain is the inbound
/// derivation's sending chain.
pub fn ratchet_receive(
    identity: &ProtocolIdentity,
    session: &mut Option<Session>,
    msg: &RatchetMessage,
) -> (r: Result<Vec<u8>, ProtocolError>)
    requires
        wf_identity(*identity),
        (*old(session)) matches Some(s) ==> wf_session(s),
    ensures
        (*final(session)) matches Some(s) ==> wf_session(s),
        *old(session) is None && msg.handshake is None ==> r == Err::<Vec<u8>, ProtocolError>(
            ProtocolError::SessionNotFound,
        ) && *final(session) is None,
        r is Err && *old(session) is Some ==> *final(session) == *old(session),
        r is Ok ==> *final(session) is Some,
        forall|p: Seq<u8>|
            *old(session) is Some && msg.counter >= (*old(session))->0.recv_counter && msg.counter
                - (*old(session))->0.recv_counter <= MAX_SKIP && msg.counter < 0xffff_ffff_u32
                && msg.ciphertext@ == #[trigger] aead_enc(
                msg_key_of(
                    step_key(
                        (*old(session))->0.recv_chain_key@,
                        (*old(session))->0.recv_counter,
                        msg.counter,
                    ),
                ),
                msg_nonce_of(
                    step_key(
                        (*old(session))->0.recv_chain_key@,
                        (*old(session))->0.recv_counter,
                        msg.counter,
                    ),
                ),
                p,
            ) ==> r is Ok && r->Ok_0@ == p,
        forall|i: int, p: Seq<u8>|
            *old(session) is Some && 0 <= i < (*old(session))->0.skipped@.len() && (*old(
                session,
            ))->0.skipped@[i].counter == msg.counter && msg.counter < (*old(
                session,
            ))->0.recv_counter && msg.ciphertext@ == #[trigger] aead_enc(
                (#[trigger] (*old(session))->0.skipped@[i]).key@,
                (*old(session))->0.skipped@[i].nonce@,
                p,
            ) ==> r is Ok && r->Ok_0@ == p,
        *old(session) is Some ==> (r == Err::<Vec<u8>, ProtocolError>(
            ProtocolError::TooManySkippedMessages,
        ) <==> (msg.counter >= (*old(session))->0.recv_counter && (msg.counter - (*old(
            session,
        ))->0.recv_counter > MAX_SKIP || msg.counter == 0xffff_ffff_u32))),
        *old(session) is Some && msg.counter < (*old(session))->0.recv_counter && (forall|i: int|
            0 <= i < (*old(session))->0.skipped@.len() ==> (#[trigger] (*old(
                session,
            ))->0.skipped@[i]).counter != msg.counter) ==> r == Err::<Vec<u8>, ProtocolError>(
            ProtocolError::KeyAlreadyConsumed,
        ),
        r is Ok && *old(session) is Some && msg.counter >= (*old(session))->0.recv_counter ==> ((
        *final(session)) matches Some(s2) && s2.recv_counter == msg.counter + 1),
        forall|bik: Seq<u8>, beph: Seq<u8>, p: Seq<u8>|
            #![trigger aead_enc(msg_key_of(step_key(inbound_recv_chain(*identity, msg.handshake->0, bik, beph), 0u32, msg.counter)), msg_nonce_of(step_key(inbound_recv_chain(*identity, msg.handshake->0, bik, beph), 0u32, msg.counter)), p)]
            *old(session) is None && msg.handshake is Some && header_lens_ok(msg.handshake->0)
                && has_pre_key(*identity, msg.handshake->0) && msg.handshake->0.identity_pub@
                == x25519_pub_of(bik) && msg.handshake->0.ephemeral_pub@ == x25519_pub_of(beph)
                && msg.counter <= MAX_SKIP && msg.counter < 0xffff_ffff_u32 && msg.ciphertext@
                == aead_enc(
                msg_key_of(
                    step_key(
                        inbound_recv_chain(*identity, msg.handshake->0, bik, beph),
                        0u32,
                        msg.counter,
                    ),
                ),
                msg_nonce_of(
                    step_key(
                        inbound_recv_chain(*identity, msg.handshake->0, bik, beph),
                        0u32,
                        msg.counter,
                    ),
                ),
                p,
            ) ==> r is Ok && r->Ok_0@ == p,
        forall|bik: Seq<u8>, beph: Seq<u8>|
            #![trigger x25519_pub_of(bik), x25519_pub_of(beph)]
            r is Ok && *old(session) is None && msg.handshake is Some
                && msg.handshake->0.identity_pub@ == x25519_pub_of(bik)
                && msg.handshake->0.ephemeral_pub@ == x25519_pub_of(beph) ==> ((
            *final(session)) matches Some(s2) && s2.send_chain_key@ == inbound_send_chain(
                *identity,
                msg.handshake->0,
                bik,
                beph,
            ) && s2.send_counter == 0 && s2.recv_counter == msg.counter + 1
                && s2.pending_handshake is None),
{
    match session {
        Some(sess) => ratchet_decrypt(sess, msg),
        None => {
            let header = match &msg.handshake {
                Some(h) => h,
                None => { return Err(ProtocolError::SessionNotFound) },
            };
            let ghost h = *header;
            let mut sess = match establish_inbound_session(identity, header) {
                Ok(s) => s,
                Err(e) => { return Err(e) },
            };
            let ghost sess0 = sess;
            let pt = match ratchet_decrypt(&mut sess, msg) {
                Ok(p) => p,
                Err(e) => {
                    proof {
                        assert forall|bik: Seq<u8>, beph: Seq<u8>, p: Seq<u8>|
                            header_lens_ok(h) && has_pre_key(*identity, h) && h.identity_pub@
                                == x25519_pub_of(bik) && h.ephemeral_pub@ == x25519_pub_of(beph)
                                && msg.counter <= MAX_SKIP && msg.counter < 0xffff_ffff_u32
                                && msg.ciphertext@ == #[trigger] aead_enc(
                                msg_key_of(
                                    step_key(
                                        inbound_recv_chain(*identity, h, bik, beph),
                                        0u32,
                                        msg.counter,
                                    ),
                                ),
                                msg_nonce_of(
                                    step_key(
                                        inbound_recv_chain(*identity, h, bik, beph),
                                        0u32,
                                        msg.counter,
                                    ),
                                ),
                                p,
                            ) implies false by {
                            assert(sess0.recv_chain_key@ == inbound_recv_chain(
                                *identity,
                                h,
                                bik,
                                beph,
                            ));
                            assert(msg.ciphertext@ == aead_enc(
                                msg_key_of(
                                    step_key(
                                        sess0.recv_chain_key@,
                                        sess0.recv_counter,
                                        msg.counter,
                                    ),
                                ),
                                msg_nonce_of(
                                    step_key(
                                        sess0.recv_chain_key@,
                                        sess0.recv_counter,
                                        msg.counter,
                                    ),
                                ),
                                p,
                            ));
                        }
                    }
                    return Err(e);
                },
            };
            proof {
                assert forall|bik: Seq<u8>, beph: Seq<u8>, p: Seq<u8>|
                    header_lens_ok(h) && has_pre_key(*identity, h) && h.identity_pub@
                        == x25519_pub_of(bik) && h.ephemeral_pub@ == x25519_pub_of(beph)
                        && msg.counter <= MAX_SKIP && msg.counter < 0xffff_ffff_u32
                        && msg.ciphertext@ == #[trigger] aead_enc(
                        msg_key_of(
                            step_key(inbound_recv_chain(*identity, h, bik, beph), 0u32, msg.counter),
                        ),
                        msg_nonce_of(
                            step_key(inbound_recv_chain(*identity, h, bik, beph), 0u32, msg.counter),
                        ),
                        p,
                    ) implies pt@ == p by {
                    assert(sess0.recv_chain_key@ == inbound_recv_chain(*identity, h, bik, beph));
                    assert(msg.ciphertext@ == aead_enc(
                        msg_key_of(step_key(sess0.recv_chain_key@, sess0.recv_counter, msg.counter)),
                        msg_nonce_of(
                            step_key(sess0.recv_chain_key@, sess0.recv_counter, msg.counter),
                        ),
                        p,
                    ));
                }
                assert forall|bik: Seq<u8>, beph: Seq<u8>|
                    h.identity_pub@ == #[trigger] x25519_pub_of(bik) && h.ephemeral_pub@
                        == #[trigger] x25519_pub_of(beph) implies sess.send_chain_key@
                    == inbound_send_chain(*identity, h, bik, beph) by {
                    assert(sess0.send_chain_key@ == inbound_send_chain(*identity, h, bik, beph));
                }
            }
            *session = Some(sess);
            Ok(pt)
        },
    }
}

} // verus!
