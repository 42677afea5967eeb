//! Durable identity key material: classical agreement and signing
//! keypairs, a post-quantum KEM keypair, one signed pre-key, and a pool of
//! one-time pre-keys.
//!
//! Private material never leaves this module's types; published bundles
//! expose only public fields.  The classical identity is a pair of
//! keypairs, one X25519 keypair for agreement and one Ed25519 keypair for
//! signatures, published together.  Persistence of the record is the
//! host's concern; every operation here returns the full new state.

use vstd::prelude::*;
use crate::errors::ProtocolError;
use crate::crypto::x25519_pub_of;
use crate::crypto::x25519_public;
use crate::crypto::ed25519_pub_of;
use crate::crypto::ed25519_sig_of;
use crate::crypto::ed25519_public;
use crate::crypto::ed25519_sign;
use crate::crypto::kyber_pub_of;
use crate::crypto::kyber_keypair;
use crate::crypto::b64_of;
use crate::crypto::encode_b64;
use crate::crypto::random_bytes;
use crate::crypto::random_u32;

verus! {

/// How many one-time pre-keys a fresh identity starts with.
pub const INITIAL_PRE_KEYS: u32 = 10;

/// One one-time pre-key; the private scalar is retained locally only.
#[derive(Clone, Debug)]
pub struct PreKey {
    /// Pool-unique id, never reused.
    pub key_id: u32,
    /// The public X25519 point.
    pub public_key: Vec<u8>,
    /// The private scalar; local only.
    pub private_key: Vec<u8>,
}

/// The public part of a one-time pre-key, as published in bundles.
#[derive(Clone, Debug)]
pub struct PublicPreKey {
    /// Pool-unique id of the pre-key.
    pub key_id: u32,
    /// The public X25519 point.
    pub public_key: Vec<u8>,
}

/// The signed pre-key: a medium-term X25519 keypair whose public point is
/// signed by the identity's Ed25519 key.
#[derive(Clone, Debug)]
pub struct SignedPreKey {
    /// Id of this signed pre-key.
    pub key_id: u32,
    /// The public X25519 point.
    pub public_key: Vec<u8>,
    /// The private scalar; local only.
    pub private_key: Vec<u8>,
    /// Ed25519 signature over the public point by the identity key.
    pub signature: Vec<u8>,
}

/// The durable identity record.
#[derive(Clone, Debug)]
pub struct ProtocolIdentity {
    /// Random registration id chosen at creation.
    pub registration_id: u32,
    /// Public X25519 identity key.
    pub dh_public: Vec<u8>,
    /// Private X25519 identity scalar; local only.
    pub dh_private: Vec<u8>,
    /// Public Ed25519 identity verification key.
    pub ed_public: Vec<u8>,
    /// Private Ed25519 identity signing key; local only.
    pub ed_private: Vec<u8>,
    /// Public Kyber-1024 identity key.
    pub pq_public: Vec<u8>,
    /// Private Kyber-1024 identity key; local only.
    pub pq_private: Vec<u8>,
    /// The current signed pre-key.
    pub signed_pre_key: SignedPreKey,
    /// The pool of one-time pre-keys, ids strictly increasing.
    pub pre_keys: Vec<PreKey>,
}

/// A remote peer's published bundle: public fields only.
#[derive(Clone, Debug)]
pub struct PreKeyBundle {
    /// The peer's registration id.
    pub registration_id: u32,
    /// The peer's public X25519 identity key.
    pub identity_key: Vec<u8>,
    /// The peer's public Ed25519 identity verification key.
    pub signing_key: Vec<u8>,
    /// The peer's public Kyber-1024 identity key.
    pub pq_identity_key: Vec<u8>,
    /// Id of the peer's signed pre-key.
    pub signed_pre_key_id: u32,
    /// The peer's signed pre-key public point.
    pub signed_pre_key: Vec<u8>,
    /// Ed25519 signature over the signed pre-key by the peer's identity.
    pub signed_pre_key_signature: Vec<u8>,
    /// One one-time pre-key of the peer, if any remained.
    pub one_time_pre_key: Option<PublicPreKey>,
}

/// Well-formedness of the identity record: key lengths, every public key
/// the image of its private key, the signed pre-key genuinely signed, and
/// pre-key ids strictly increasing.
pub open spec fn wf_identity(id: ProtocolIdentity) -> bool {
    &&& id.dh_public@.len() == 32
    &&& id.dh_private@.len() == 32
    &&& id.dh_public@ == x25519_pub_of(id.dh_private@)
    &&& id.ed_public@.len() == 32
    &&& id.ed_private@.len() == 32
    &&& id.ed_public@ == ed25519_pub_of(id.ed_private@)
    &&& id.pq_public@.len() == 1568
    &&& id.pq_private@.len() == 3168
    &&& id.pq_public@ == kyber_pub_of(id.pq_private@)
    &&& id.signed_pre_key.public_key@.len() == 32
    &&& id.signed_pre_key.private_key@.len() == 32
    &&& id.signed_pre_key.public_key@ == x25519_pub_of(id.signed_pre_key.private_key@)
    &&& id.signed_pre_key.signature@ == ed25519_sig_of(
        id.ed_private@,
        id.signed_pre_key.public_key@,
    )
    &&& id.signed_pre_key.signature@.len() == 64
    &&& forall|i: int|
        0 <= i < id.pre_keys@.len() ==> (#[trigger] id.pre_keys@[i]).public_key@.len() == 32
            && id.pre_keys@[i].private_key@.len() == 32 && id.pre_keys@[i].public_key@
            == x25519_pub_of(id.pre_keys@[i].private_key@)
    &&& forall|i: int, j: int|
        0 <= i < j < id.pre_keys@.len() ==> (#[trigger] id.pre_keys@[i]).key_id < (
        #[trigger] id.pre_keys@[j]).key_id
}

/// The id the next appended pre-key will get.
pub open spec fn next_pre_key_id(id: ProtocolIdentity) -> int {
    if id.pre_keys@.len() == 0 {
        1
    } else {
        id.pre_keys@.last().key_id + 1
    }
}

/// Generates one fresh one-time pre-key with the given id.
fn generate_pre_key(key_id: u32) -> (r: PreKey)
    ensures
        r.key_id == key_id,
        r.public_key@.len() == 32,
        r.private_key@.len() == 32,
        r.public_key@ == x25519_pub_of(r.private_key@),
{
    let private_key = random_bytes(32);
    let public_key = x25519_public(private_key.as_slice());
    PreKey { key_id, public_key, private_key }
}

/// Generates a fresh identity: classical agreement and signing keypairs,
/// a post-quantum keypair, one signed pre-key signed with the identity's
/// signing key, and an initial pool of one-time pre-keys.
pub fn generate_new_identity() -> (r: ProtocolIdentity)
    ensures
        wf_identity(r),
        r.pre_keys@.len() == INITIAL_PRE_KEYS,
{
    let dh_private = random_bytes(32);
    let dh_public = x25519_public(dh_private.as_slice());
    let ed_private = random_bytes(32);
    let ed_public = ed25519_public(ed_private.as_slice());
    let (pq_public, pq_private) = kyber_keypair();
    let spk_private = random_bytes(32);
    let spk_public = x25519_public(spk_private.as_slice());
    let signature = ed25519_sign(ed_private.as_slice(), spk_public.as_slice());
    let signed_pre_key = SignedPreKey {
        key_id: 1,
        public_key: spk_public,
        private_key: spk_private,
        signature,
    };
    let mut identity = ProtocolIdentity {
        registration_id: random_u32(),
        dh_public,
        dh_private,
        ed_public,
        ed_private,
        pq_public,
        pq_private,
        signed_pre_key,
        pre_keys: Vec::new(),
    };
    identity.replenish_pre_keys(INITIAL_PRE_KEYS);
    identity
}

impl ProtocolIdentity {
    /// Appends `count` fresh one-time pre-keys with fresh sequential ids,
    /// never reusing an id, and returns only the newly added public
    /// entries, newest first.  Existing pre-keys are untouched.
    pub fn replenish_pre_keys(&mut self, count: u32) -> (r: Vec<PublicPreKey>)
        requires
            wf_identity(*old(self)),
            next_pre_key_id(*old(self)) + count <= 0xffff_ffff_u32,
        ensures
            wf_identity(*final(self)),
            final(self).registration_id == old(self).registration_id,
            final(self).dh_public == old(self).dh_public,
            final(self).dh_private == old(self).dh_private,
            final(self).ed_public == old(self).ed_public,
            final(self).ed_private == old(self).ed_private,
            final(self).pq_public == old(self).pq_public,
            final(self).pq_private == old(self).pq_private,
            final(self).signed_pre_key == old(self).signed_pre_key,
            final(self).pre_keys@.len() == old(self).pre_keys@.len() + count,
            forall|i: int|
                0 <= i < old(self).pre_keys@.len() ==> final(self).pre_keys@[i] == old(
                self,
            ).pre_keys@[i],
            r@.len() == count,
            forall|i: int|
                0 <= i < count ==> (#[trigger] r@[i]).key_id == next_pre_key_id(*old(self)) + (
                count - 1 - i) && r@[i].public_key@ == final(self).pre_keys@[old(
                    self,
                ).pre_keys@.len() + (count - 1 - i)].public_key@,
    {
        let mut fresh: Vec<PublicPreKey> = Vec::new();
        let base: u32 = if self.pre_keys.len() == 0 {
            1
        } else {
            self.pre_keys[self.pre_keys.len() - 1].key_id + 1
        };
        proof {
            assert(forall|i: int|
                0 <= i < old(self).pre_keys@.len() ==> (#[trigger] old(
                    self,
                ).pre_keys@[i]).key_id < base) by {
                assert(forall|i: int|
                    0 <= i < old(self).pre_keys@.len() - 1 ==> (#[trigger] old(
                        self,
                    ).pre_keys@[i]).key_id < (#[trigger] old(self).pre_keys@[old(
                        self,
                    ).pre_keys@.len() - 1]).key_id);
            }
        }
        let mut n: u32 = 0;
        while n < count
            invariant
                wf_identity(*old(self)),
                base == next_pre_key_id(*old(self)),
                forall|i: int|
                    0 <= i < self.pre_keys@.len() ==> (#[trigger] self.pre_keys@[i]).key_id < base
                        + n,
                base + count <= 0xffff_ffff_u32,
                n <= count,
                self.registration_id == old(self).registration_id,
                self.dh_public == old(self).dh_public,
                self.dh_private == old(self).dh_private,
                self.ed_public == old(self).ed_public,
                self.ed_private == old(self).ed_private,
                self.pq_public == old(self).pq_public,
                self.pq_private == old(self).pq_private,
                self.signed_pre_key == old(self).signed_pre_key,
                self.pre_keys@.len() == old(self).pre_keys@.len() + n,
                forall|i: int|
                    0 <= i < old(self).pre_keys@.len() ==> self.pre_keys@[i] == old(
                    self,
                ).pre_keys@[i],
                forall|i: int|
                    0 <= i < self.pre_keys@.len() ==> (#[trigger] self.pre_keys@[i]).public_key@.len()
                        == 32 && self.pre_keys@[i].private_key@.len() == 32
                        && self.pre_keys@[i].public_key@ == x25519_pub_of(
                        self.pre_keys@[i].private_key@,
                    ),
                forall|i: int|
                    old(self).pre_keys@.len() <= i < self.pre_keys@.len()
                        ==> (#[trigger] self.pre_keys@[i]).key_id == base + (i - old(
                    self,
                ).pre_keys@.len()),
                forall|i: int, j: int|
                    0 <= i < j < self.pre_keys@.len() ==> (#[trigger] self.pre_keys@[i]).key_id < (
                    #[trigger] self.pre_keys@[j]).key_id,
                fresh@.len() == n,
                forall|i: int|
                    0 <= i < n ==> (#[trigger] fresh@[i]).key_id == base + (n - 1 - i)
                        && fresh@[i].public_key@ == self.pre_keys@[old(self).pre_keys@.len() + (n
                        - 1 - i)].public_key@,
            decreases count - n,
        {
            let pk = generate_pre_key(base + n);
            let entry = PublicPreKey {
                key_id: pk.key_id,
                public_key: vstd::slice::slice_to_vec(pk.public_key.as_slice()),
            };
            self.pre_keys.push(pk);
            fresh.insert(0, entry);
            n = n + 1;
        }
        fresh
    }
}

/// Signs arbitrary bytes with the identity's signing key and returns the
/// textual (base64) signature; the encoded signature is 64 bytes, so it
/// can be handed back to signature verification.
pub fn sign_message(identity: &ProtocolIdentity, message: &[u8]) -> (r: String)
    requires
        wf_identity(*identity),
    ensures
        r@ == b64_of(ed25519_sig_of(identity.ed_private@, message@)),
        ed25519_sig_of(identity.ed_private@, message@).len() == 64,
{
    let signature = ed25519_sign(identity.ed_private.as_slice(), message);
    encode_b64(signature.as_slice())
}

/// Demands an existing identity: the host calls this wherever an
/// operation needs one outside load-or-create.
pub fn require_identity(opt: Option<ProtocolIdentity>) -> (r: Result<
    ProtocolIdentity,
    ProtocolError,
>)
    ensures
        opt is None <==> r == Err::<ProtocolIdentity, ProtocolError>(ProtocolError::NotInitialized),
        opt is Some ==> r is Ok && r->Ok_0 == opt->0,
{
    match opt {
        Some(identity) => Ok(identity),
        None => Err(ProtocolError::NotInitialized),
    }
}

/// The idempotent load-or-create primitive: an existing identity is
/// returned unchanged, otherwise a fresh one is generated.  The flag says
/// whether a new record must be persisted.
pub fn identity_or_generate(opt: Option<ProtocolIdentity>) -> (r: (ProtocolIdentity, bool))
    requires
        opt matches Some(i) ==> wf_identity(i),
    ensures
        wf_identity(r.0),
        opt matches Some(i) ==> r.0 == i && !r.1,
        opt is None ==> r.1,
{
    match opt {
        Some(identity) => (identity, false),
        None => (generate_new_identity(), true),
    }
}

/// The published form of this identity: public fields only, with the
/// first pooled one-time pre-key attached when one exists.
pub fn identity_public_bundle(identity: &ProtocolIdentity) -> (r: PreKeyBundle)
    requires
        wf_identity(*identity),
    ensures
        r.registration_id == identity.registration_id,
        r.identity_key@ == identity.dh_public@,
        r.signing_key@ == identity.ed_public@,
        r.pq_identity_key@ == identity.pq_public@,
        r.signed_pre_key_id == identity.signed_pre_key.key_id,
        r.signed_pre_key@ == identity.signed_pre_key.public_key@,
        r.signed_pre_key_signature@ == identity.signed_pre_key.signature@,
        identity.pre_keys@.len() == 0 <==> r.one_time_pre_key is None,
        identity.pre_keys@.len() > 0 ==> (r.one_time_pre_key matches Some(p) && p.key_id
            == identity.pre_keys@[0].key_id && p.public_key@ == identity.pre_keys@[0].public_key@),
{
    let one_time_pre_key = if identity.pre_keys.len() > 0 {
        Some(
            PublicPreKey {
                key_id: identity.pre_keys[0].key_id,
                public_key: vstd::slice::slice_to_vec(identity.pre_keys[0].public_key.as_slice()),
            },
        )
    } else {
        None
    };
    PreKeyBundle {
        registration_id: identity.registration_id,
        identity_key: vstd::slice::slice_to_vec(identity.dh_public.as_slice()),
        signing_key: vstd::slice::slice_to_vec(identity.ed_public.as_slice()),
        pq_identity_key: vstd::slice::slice_to_vec(identity.pq_public.as_slice()),
        signed_pre_key_id: identity.signed_pre_key.key_id,
        signed_pre_key: vstd::slice::slice_to_vec(identity.signed_pre_key.public_key.as_slice()),
        signed_pre_key_signature: vstd::slice::slice_to_vec(
            identity.signed_pre_key.signature.as_slice(),
        ),
        one_time_pre_key,
    }
}

} // verus!
