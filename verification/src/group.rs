//! The group sender-key protocol: one signing/encryption chain per group
//! member, distributed out of band, for efficient one-to-many fan-out.
//!
//! A member's receiving chain only ever advances forward; a counter below
//! the stored one is a replay and fails.  Importing a distribution message
//! is trust-on-first-use: a reissued distribution from the same sender
//! resets that member's chain, which is the documented rekey mechanism.

use vstd::prelude::*;
use crate::errors::ProtocolError;
use crate::crypto::aead_enc;
use crate::crypto::aead_encrypt;
use crate::crypto::aead_decrypt;
use crate::crypto::ed25519_pub_of;
use crate::crypto::ed25519_sig_of;
use crate::crypto::ed25519_public;
use crate::crypto::ed25519_sign;
use crate::crypto::ed25519_verify;
use crate::crypto::random_bytes;
use crate::crypto::AEAD_PT_MAX;
use crate::kdf::next_chain_key_of;
use crate::kdf::msg_key_of;
use crate::kdf::msg_nonce_of;
use crate::kdf::chain_at;
use crate::kdf::step_key;
use crate::kdf::next_chain_key;
use crate::kdf::msg_key;
use crate::kdf::msg_nonce;

verus! {

/// One sender's chain inside a group: chain key, position, and the
/// signing keypair (the private half exists only for the local sender).
#[derive(Clone, Debug)]
pub struct SenderKey {
    /// Distribution id of this sender key.
    pub key_id: u32,
    /// Current 32-byte chain key.
    pub chain_key: Vec<u8>,
    /// The chain counter the next message will carry (local) or the next
    /// expected counter (remote member).
    pub counter: u32,
    /// The Ed25519 signing key; `None` for remote members.
    pub signature_key_private: Option<Vec<u8>>,
    /// The Ed25519 verification key all members hold.
    pub signature_key_public: Vec<u8>,
}

/// The out-of-band distribution form of a sender key: public fields only.
#[derive(Clone, Debug)]
pub struct GroupDistributionMessage {
    /// The group this sender key belongs to.
    pub group_id: String,
    /// Distribution id of the sender key.
    pub key_id: u32,
    /// The chain key at the moment of distribution.
    pub chain_key: Vec<u8>,
    /// The chain counter at the moment of distribution.
    pub counter: u32,
    /// The Ed25519 verification key of the sender.
    pub signature_key_public: Vec<u8>,
}

/// One encrypted group message.
#[derive(Clone, Debug)]
pub struct GroupMessage {
    /// Distribution id of the sender key used.
    pub key_id: u32,
    /// The chain counter the message was encrypted at.
    pub counter: u32,
    /// The AEAD ciphertext.
    pub ciphertext: Vec<u8>,
    /// Ed25519 signature over the ciphertext by the sender.
    pub signature: Vec<u8>,
}

/// Per-group state: the local sender key when this identity sends, the
/// imported sender keys of the other members, and the member list.
#[derive(Clone, Debug)]
pub struct GroupState {
    /// The group id this state belongs to.
    pub group_id: String,
    /// The local sender key, once created.
    pub my_sender_key: Option<SenderKey>,
    /// Each member's imported sender key, keyed by member fingerprint;
    /// keys unique.
    pub member_sender_keys: Vec<(String, SenderKey)>,
    /// The ordered member list.
    pub members: Vec<String>,
}

/// The abstract content of a sender key: id, chain key, counter,
/// verification key.
pub open spec fn sk_view(k: SenderKey) -> (u32, Seq<u8>, u32, Seq<u8>) {
    (k.key_id, k.chain_key@, k.counter, k.signature_key_public@)
}

/// The member table as a map from fingerprint to sender-key content.
pub open spec fn members_map(m: Seq<(String, SenderKey)>) -> Map<
    Seq<char>,
    (u32, Seq<u8>, u32, Seq<u8>),
>
    decreases m.len(),
{
    if m.len() == 0 {
        Map::empty()
    } else {
        members_map(m.drop_last()).insert(m.last().0@, sk_view(m.last().1))
    }
}

/// Well-formedness of one sender key.
pub open spec fn wf_sender_key(k: SenderKey) -> bool {
    &&& k.chain_key@.len() == 32
    &&& k.signature_key_public@.len() == 32
    &&& k.signature_key_private matches Some(p) ==> p@.len() == 32
}

/// Well-formedness of a local sender key: the signing half is present.
pub open spec fn wf_local_sender_key(k: SenderKey) -> bool {
    &&& wf_sender_key(k)
    &&& k.signature_key_private is Some
}

/// Well-formedness of a group state: every key well-formed, the local
/// one able to sign, member fingerprints unique.
pub open spec fn wf_group(gs: GroupState) -> bool {
    &&& gs.my_sender_key matches Some(k) ==> wf_local_sender_key(k)
    &&& forall|i: int|
        0 <= i < gs.member_sender_keys@.len() ==> wf_sender_key(
            (#[trigger] gs.member_sender_keys@[i]).1,
        )
    &&& forall|i: int, j: int|
        0 <= i < j < gs.member_sender_keys@.len() ==> (#[trigger] gs.member_sender_keys@[i]).0@
            != (#[trigger] gs.member_sender_keys@[j]).0@
}

/// With unique fingerprints, entry `i` is what the member table maps its
/// fingerprint to.
proof fn lemma_members_map_get(m: Seq<(String, SenderKey)>, i: int)
    requires
        0 <= i < m.len(),
        forall|a: int, b: int|
            0 <= a < b < m.len() ==> (#[trigger] m[a]).0@ != (#[trigger] m[b]).0@,
    ensures
        members_map(m).contains_key(m[i].0@),
        members_map(m)[m[i].0@] == sk_view(m[i].1),
    decreases m.len(),
{
    if i == m.len() - 1 {
        assert(m.last() == m[i]);
    } else {
        assert(forall|a: int, b: int|
            0 <= a < b < m.drop_last().len() ==> (#[trigger] m.drop_last()[a]).0@ != (
            #[trigger] m.drop_last()[b]).0@);
        lemma_members_map_get(m.drop_last(), i);
        assert(m.drop_last()[i] == m[i]);
        assert(m[i].0@ != m.last().0@);
    }
}

/// A fingerprint under no entry is not in the member table.
proof fn lemma_members_map_absent(m: Seq<(String, SenderKey)>, k: Seq<char>)
    requires
        forall|i: int| 0 <= i < m.len() ==> (#[trigger] m[i]).0@ != k,
    ensures
        !members_map(m).contains_key(k),
    decreases m.len(),
{
    if m.len() > 0 {
        assert(forall|i: int| 0 <= i < m.drop_last().len() ==> (#[trigger] m.drop_last()[i]).0@ != k);
        lemma_members_map_absent(m.drop_last(), k);
        assert(m.last() == m[m.len() - 1]);
    }
}

/// Replacing entry `i` under the same fingerprint updates exactly that
/// fingerprint in the member table.
proof fn lemma_members_map_update(m: Seq<(String, SenderKey)>, i: int, e: (String, SenderKey))
    requires
        0 <= i < m.len(),
        e.0@ == m[i].0@,
        forall|a: int, b: int|
            0 <= a < b < m.len() ==> (#[trigger] m[a]).0@ != (#[trigger] m[b]).0@,
    ensures
        members_map(m.update(i, e)) =~= members_map(m).insert(e.0@, sk_view(e.1)),
    decreases m.len(),
{
    let u = m.update(i, e);
    if i == m.len() - 1 {
        assert(u.drop_last() =~= m.drop_last());
        assert(u.last() == e);
        assert(m.last().0@ == e.0@);
    } else {
        assert(u.drop_last() =~= m.drop_last().update(i, e));
        assert(u.last() == m.last());
        assert(m.drop_last()[i] == m[i]);
        assert(forall|a: int, b: int|
            0 <= a < b < m.drop_last().len() ==> (#[trigger] m.drop_last()[a]).0@ != (
            #[trigger] m.drop_last()[b]).0@);
        lemma_members_map_update(m.drop_last(), i, e);
        assert(m[i].0@ != m.last().0@);
    }
}

/// Appending an entry with a fresh fingerprint inserts it into the
/// member table.
proof fn lemma_members_map_push(m: Seq<(String, SenderKey)>, e: (String, SenderKey))
    ensures
        members_map(m.push(e)) =~= members_map(m).insert(e.0@, sk_view(e.1)),
{
    assert(m.push(e).drop_last() =~= m);
    assert(m.push(e).last() == e);
}

/// Finds the member entry of a fingerprint.
fn find_member(m: &Vec<(String, SenderKey)>, k: &String) -> (r: Option<usize>)
    ensures
        r matches Some(i) ==> i < m@.len() && m@[i as int].0@ == k@,
        r is None ==> forall|i: int| 0 <= i < m@.len() ==> (#[trigger] m@[i]).0@ != k@,
{
    let mut i: usize = 0;
    while i < m.len()
        invariant
            i <= m@.len(),
            forall|j: int| 0 <= j < i ==> (#[trigger] m@[j]).0@ != k@,
        decreases m@.len() - i,
    {
        if m[i].0 == *k {
            return Some(i);
        }
        i = i + 1;
    }
    None
}

/// Creates a fresh local sender key: a random chain key and a new
/// signing keypair, at counter zero.
pub fn create_group_sender_key() -> (r: SenderKey)
    ensures
        wf_local_sender_key(r),
        r.counter == 0,
        r.key_id == 1,
        r.signature_key_public@ == ed25519_pub_of(r.signature_key_private->0@),
{
    let chain_key = random_bytes(32);
    let signing_private = random_bytes(32);
    let signature_key_public = ed25519_public(signing_private.as_slice());
    SenderKey {
        key_id: 1,
        chain_key,
        counter: 0,
        signature_key_private: Some(signing_private),
        signature_key_public,
    }
}

/// Packages the local sender key for out-of-band distribution to the
/// group's members.
pub fn create_group_distribution_message(gs: &GroupState) -> (r: Result<
    GroupDistributionMessage,
    ProtocolError,
>)
    ensures
        gs.my_sender_key is None <==> r == Err::<GroupDistributionMessage, ProtocolError>(
            ProtocolError::NoLocalSenderKey,
        ),
        r matches Ok(d) ==> (gs.my_sender_key matches Some(k) && d.key_id == k.key_id
            && d.chain_key@ == k.chain_key@ && d.counter == k.counter && d.signature_key_public@
            == k.signature_key_public@ && d.group_id@ == gs.group_id@),
        r is Err ==> r == Err::<GroupDistributionMessage, ProtocolError>(
            ProtocolError::NoLocalSenderKey,
        ),
{
    match &gs.my_sender_key {
        None => Err(ProtocolError::NoLocalSenderKey),
        Some(k) => Ok(
            GroupDistributionMessage {
                group_id: clone_string(&gs.group_id),
                key_id: k.key_id,
                chain_key: vstd::slice::slice_to_vec(k.chain_key.as_slice()),
                counter: k.counter,
                signature_key_public: vstd::slice::slice_to_vec(k.signature_key_public.as_slice()),
            },
        ),
    }
}

/// Copies a string (the view is preserved).
fn clone_string(s: &String) -> (r: String)
    ensures
        r@ == s@,
{
    let r = s.clone();
    r
}

/// Creates the state of a new group with a fresh local sender key and
/// returns it with the distribution message to hand the members.
pub fn group_init(group_id: String) -> (r: (GroupState, GroupDistributionMessage))
    ensures
        wf_group(r.0),
        r.0.group_id@ == group_id@,
        r.0.my_sender_key is Some,
        r.0.member_sender_keys@.len() == 0,
        r.0.members@.len() == 0,
        r.1.group_id@ == group_id@,
        r.0.my_sender_key matches Some(k) ==> r.1.key_id == k.key_id && r.1.chain_key@
            == k.chain_key@ && r.1.counter == k.counter && r.1.signature_key_public@
            == k.signature_key_public@,
        r.0.my_sender_key matches Some(k) ==> k.counter == 0 && k.signature_key_private is Some
            && k.signature_key_public@ == ed25519_pub_of(k.signature_key_private->0@),
{
    let gs = GroupState {
        group_id,
        my_sender_key: Some(create_group_sender_key()),
        member_sender_keys: Vec::new(),
        members: Vec::new(),
    };
    let dist = match create_group_distribution_message(&gs) {
        Ok(d) => d,
        Err(_) => {
            proof {
                assert(false);
            }
            GroupDistributionMessage {
                group_id: String::new(),
                key_id: 0,
                chain_key: Vec::new(),
                counter: 0,
                signature_key_public: Vec::new(),
            }
        },
    };
    (gs, dist)
}

/// Imports a member's distribution message, inserting or overwriting that
/// member's sender key (trust on first use; a reissued distribution
/// resets the member's chain).
pub fn process_group_distribution(
    gs: &mut GroupState,
    sender: &String,
    dist: &GroupDistributionMessage,
) -> (r: Result<(), ProtocolError>)
    requires
        wf_group(*old(gs)),
    ensures
        wf_group(*final(gs)),
        dist.chain_key@.len() != 32 || dist.signature_key_public@.len() != 32 <==> r == Err::<
            (),
            ProtocolError,
        >(ProtocolError::InvalidKeyMaterial),
        r is Err ==> r == Err::<(), ProtocolError>(ProtocolError::InvalidKeyMaterial),
        r is Err ==> *final(gs) == *old(gs),
        r is Ok ==> members_map(final(gs).member_sender_keys@) == members_map(
            old(gs).member_sender_keys@,
        ).insert(
            sender@,
            (dist.key_id, dist.chain_key@, dist.counter, dist.signature_key_public@),
        ),
        final(gs).group_id == old(gs).group_id,
        final(gs).my_sender_key == old(gs).my_sender_key,
        final(gs).members == old(gs).members,
{
    if dist.chain_key.len() != 32 || dist.signature_key_public.len() != 32 {
        return Err(ProtocolError::InvalidKeyMaterial);
    }
    let imported = SenderKey {
        key_id: dist.key_id,
        chain_key: vstd::slice::slice_to_vec(dist.chain_key.as_slice()),
        counter: dist.counter,
        signature_key_private: None,
        signature_key_public: vstd::slice::slice_to_vec(dist.signature_key_public.as_slice()),
    };
    let entry = (clone_string(sender), imported);
    match find_member(&gs.member_sender_keys, sender) {
        Some(i) => {
            proof {
                lemma_members_map_update(gs.member_sender_keys@, i as int, entry);
            }
            gs.member_sender_keys[i] = entry;
        },
        None => {
            proof {
                lemma_members_map_push(gs.member_sender_keys@, entry);
            }
            gs.member_sender_keys.push(entry);
        },
    }
    Ok(())
}

/// Demands existing group state: the host calls this wherever an
/// operation needs a group that was initialised or joined before.
pub fn require_group(opt: Option<GroupState>) -> (r: Result<GroupState, ProtocolError>)
    ensures
        opt is None <==> r == Err::<GroupState, ProtocolError>(ProtocolError::GroupNotFound),
        opt is Some ==> r is Ok && r->Ok_0 == opt->0,
{
    match opt {
        Some(gs) => Ok(gs),
        None => Err(ProtocolError::GroupNotFound),
    }
}

/// The idempotent load-or-create primitive for group state: existing
/// state is returned unchanged, otherwise an empty state without a local
/// sender key is made, as when a distribution message arrives for a
/// group this identity has not sent in.
pub fn group_state_or_new(opt: Option<GroupState>, group_id: &String) -> (r: GroupState)
    requires
        opt matches Some(g) ==> wf_group(g),
    ensures
        wf_group(r),
        opt matches Some(g) ==> r == g,
        opt is None ==> r.group_id@ == group_id@ && r.my_sender_key is None
            && r.member_sender_keys@.len() == 0 && r.members@.len() == 0,
{
    match opt {
        Some(gs) => gs,
        None => GroupState {
            group_id: clone_string(group_id),
            my_sender_key: None,
            member_sender_keys: Vec::new(),
            members: Vec::new(),
        },
    }
}

/// Encrypts a message under the local sender key's current chain step,
/// signs the ciphertext, and advances the chain one one-way step.
pub fn group_encrypt(gs: &mut GroupState, plaintext: &[u8]) -> (r: Result<
    GroupMessage,
    ProtocolError,
>)
    requires
        wf_group(*old(gs)),
        old(gs).my_sender_key matches Some(k) ==> k.counter < 0xffff_ffff_u32,
        plaintext@.len() <= AEAD_PT_MAX,
    ensures
        wf_group(*final(gs)),
        old(gs).my_sender_key is None <==> r == Err::<GroupMessage, ProtocolError>(
            ProtocolError::NoLocalSenderKey,
        ),
        r is Err ==> r == Err::<GroupMessage, ProtocolError>(ProtocolError::NoLocalSenderKey),
        r is Err ==> *final(gs) == *old(gs),
        r matches Ok(msg) ==> (old(gs).my_sender_key matches Some(k) && {
            &&& msg.key_id == k.key_id
            &&& msg.counter == k.counter
            &&& msg.ciphertext@ == aead_enc(
                msg_key_of(k.chain_key@),
                msg_nonce_of(k.chain_key@),
                plaintext@,
            )
            &&& msg.signature@ == ed25519_sig_of(k.signature_key_private->0@, msg.ciphertext@)
            &&& msg.signature@.len() == 64
            &&& final(gs).my_sender_key matches Some(k2) && k2.key_id == k.key_id
                && k2.chain_key@ == next_chain_key_of(k.chain_key@) && k2.counter == k.counter + 1
                && k2.signature_key_private is Some && k2.signature_key_private->0@
                == k.signature_key_private->0@ && k2.signature_key_public@
                == k.signature_key_public@
        }),
        final(gs).group_id == old(gs).group_id,
        final(gs).member_sender_keys == old(gs).member_sender_keys,
        final(gs).members == old(gs).members,
{
    let k = match &gs.my_sender_key {
        None => { return Err(ProtocolError::NoLocalSenderKey) },
        Some(k) => k,
    };
    let signing_private = match &k.signature_key_private {
        Some(p) => vstd::slice::slice_to_vec(p.as_slice()),
        None => {
            proof {
                assert(false);
            }
            return Err(ProtocolError::NoLocalSenderKey);
        },
    };
    let mk = msg_key(&k.chain_key);
    let nonce = msg_nonce(&k.chain_key);
    let ciphertext = aead_encrypt(mk.as_slice(), nonce.as_slice(), plaintext);
    let signature = ed25519_sign(signing_private.as_slice(), ciphertext.as_slice());
    let msg = GroupMessage { key_id: k.key_id, counter: k.counter, ciphertext, signature };
    let advanced = SenderKey {
        key_id: k.key_id,
        chain_key: next_chain_key(&k.chain_key),
        counter: k.counter + 1,
        signature_key_private: Some(signing_private),
        signature_key_public: vstd::slice::slice_to_vec(k.signature_key_public.as_slice()),
    };
    gs.my_sender_key = Some(advanced);
    Ok(msg)
}

/// Decrypts a group message from a member: looks up the member's sender
/// key, refuses counters behind the stored chain (replay), advances the
/// chain forward to the message counter, verifies the signature, and
/// decrypts.  On any failure the state is unchanged.
pub fn group_decrypt(gs: &mut GroupState, sender: &String, msg: &GroupMessage) -> (r: Result<
    Vec<u8>,
    ProtocolError,
>)
    requires
        wf_group(*old(gs)),
    ensures
        wf_group(*final(gs)),
        r is Err ==> *final(gs) == *old(gs),
        !members_map(old(gs).member_sender_keys@).contains_key(sender@) <==> r == Err::<
            Vec<u8>,
            ProtocolError,
        >(ProtocolError::UnknownSender),
        r == Err::<Vec<u8>, ProtocolError>(ProtocolError::ReplayDetected) <==> (members_map(
            old(gs).member_sender_keys@,
        ).contains_key(sender@) && msg.counter < members_map(
            old(gs).member_sender_keys@,
        )[sender@].2),
        r == Err::<Vec<u8>, ProtocolError>(ProtocolError::TooManySkippedMessages) <==> (members_map(
            old(gs).member_sender_keys@,
        ).contains_key(sender@) && members_map(old(gs).member_sender_keys@)[sender@].2
            <= msg.counter && msg.counter == 0xffff_ffff_u32),
        ({
            let mv = members_map(old(gs).member_sender_keys@);
            mv.contains_key(sender@) && mv[sender@].2 <= msg.counter < 0xffff_ffff_u32
        }) && r is Err ==> r == Err::<Vec<u8>, ProtocolError>(ProtocolError::AuthenticationFailed),
        forall|ssk: Seq<u8>, p: Seq<u8>|
            #![trigger ed25519_sig_of(ssk, msg.ciphertext@), aead_enc(msg_key_of(step_key(members_map(old(gs).member_sender_keys@)[sender@].1, members_map(old(gs).member_sender_keys@)[sender@].2, msg.counter)), msg_nonce_of(step_key(members_map(old(gs).member_sender_keys@)[sender@].1, members_map(old(gs).member_sender_keys@)[sender@].2, msg.counter)), p)]
            {
                let mv = members_map(old(gs).member_sender_keys@);
                mv.contains_key(sender@) && mv[sender@].2 <= msg.counter < 0xffff_ffff_u32
                    && msg.signature@.len() == 64 && mv[sender@].3 == ed25519_pub_of(ssk)
                    && msg.signature@ == ed25519_sig_of(ssk, msg.ciphertext@) && msg.ciphertext@
                    == aead_enc(
                    msg_key_of(step_key(mv[sender@].1, mv[sender@].2, msg.counter)),
                    msg_nonce_of(step_key(mv[sender@].1, mv[sender@].2, msg.counter)),
                    p,
                ) ==> r is Ok && r->Ok_0@ == p
            },
        r is Ok ==> ({
            let mv = members_map(old(gs).member_sender_keys@);
            mv.contains_key(sender@) && mv[sender@].2 <= msg.counter < 0xffff_ffff_u32
                && members_map(final(gs).member_sender_keys@) == mv.insert(
                sender@,
                (
                    mv[sender@].0,
                    chain_at(mv[sender@].1, (msg.counter + 1 - mv[sender@].2) as nat),
                    (msg.counter + 1) as u32,
                    mv[sender@].3,
                ),
            )
        }),
        final(gs).group_id == old(gs).group_id,
        final(gs).my_sender_key == old(gs).my_sender_key,
        final(gs).members == old(gs).members,
{
    let idx = match find_member(&gs.member_sender_keys, sender) {
        Some(i) => i,
        None => {
            proof {
                lemma_members_map_absent(old(gs).member_sender_keys@, sender@);
            }
            return Err(ProtocolError::UnknownSender);
        },
    };
    proof {
        lemma_members_map_get(old(gs).member_sender_keys@, idx as int);
    }
    let stored_counter = gs.member_sender_keys[idx].1.counter;
    if msg.counter < stored_counter {
        return Err(ProtocolError::ReplayDetected);
    }
    if msg.counter == 0xffff_ffff_u32 {
        return Err(ProtocolError::TooManySkippedMessages);
    }
    if msg.signature.len() != 64 {
        return Err(ProtocolError::AuthenticationFailed);
    }
    let ghost ck0 = gs.member_sender_keys@[idx as int].1.chain_key@;
    let mut ck = vstd::slice::slice_to_vec(gs.member_sender_keys[idx].1.chain_key.as_slice());
    let mut c = stored_counter;
    while c < msg.counter
        invariant
            *gs == *old(gs),
            wf_group(*old(gs)),
            idx < gs.member_sender_keys@.len(),
            ck0 == gs.member_sender_keys@[idx as int].1.chain_key@,
            stored_counter == gs.member_sender_keys@[idx as int].1.counter,
            stored_counter <= c <= msg.counter,
            msg.counter < 0xffff_ffff_u32,
            ck@ == chain_at(ck0, (c - stored_counter) as nat),
            ck@.len() == 32,
        decreases msg.counter - c,
    {
        ck = next_chain_key(&ck);
        c = c + 1;
    }
    if !ed25519_verify(
        gs.member_sender_keys[idx].1.signature_key_public.as_slice(),
        msg.ciphertext.as_slice(),
        msg.signature.as_slice(),
    ) {
        return Err(ProtocolError::AuthenticationFailed);
    }
    let mk = msg_key(&ck);
    let nonce = msg_nonce(&ck);
    let pt = match aead_decrypt(mk.as_slice(), nonce.as_slice(), msg.ciphertext.as_slice()) {
        Some(p) => p,
        None => { return Err(ProtocolError::AuthenticationFailed) },
    };
    let advanced = SenderKey {
        key_id: gs.member_sender_keys[idx].1.key_id,
        chain_key: next_chain_key(&ck),
        counter: msg.counter + 1,
        signature_key_private: None,
        signature_key_public: vstd::slice::slice_to_vec(
            gs.member_sender_keys[idx].1.signature_key_public.as_slice(),
        ),
    };
    let entry = (clone_string(sender), advanced);
    proof {
        lemma_members_map_update(gs.member_sender_keys@, idx as int, entry);
    }
    gs.member_sender_keys[idx] = entry;
    Ok(pt)
}

} // verus!
