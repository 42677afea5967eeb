//! Forward-secret pairwise message chains.
//!
//! Each session holds a sending and a receiving chain.  Every encrypt
//! advances the sending chain one one-way step and spends that step's
//! message key; every decrypt advances the receiving chain to the message's
//! counter, caching the keys of skipped counters in a bounded cache so a
//! later out-of-order arrival can still decrypt, once.  A failing operation
//! leaves the session exactly as it was.

use vstd::prelude::*;
use crate::errors::ProtocolError;
use crate::crypto::aead_enc;
use crate::crypto::aead_encrypt;
use crate::crypto::aead_decrypt;
use crate::crypto::AEAD_PT_MAX;
use crate::kdf::next_chain_key_of;
use crate::kdf::msg_key_of;
use crate::kdf::msg_nonce_of;
use crate::kdf::chain_at;
use crate::kdf::step_key;
use crate::kdf::next_chain_key;
use crate::kdf::msg_key;
use crate::kdf::msg_nonce;

verus! {

/// How far ahead of the receiving chain a message counter may run.
pub const MAX_SKIP: u32 = 64;

/// Capacity of the skipped-key cache; the oldest entry is evicted beyond
/// it.  Kept equal to the skip window.
pub const MAX_SKIP_ENTRIES: usize = 64;

/// The message key and nonce of one skipped (not yet received) counter.
#[derive(Clone, Debug)]
pub struct SkippedKey {
    /// The chain counter this key belongs to.
    pub counter: u32,
    /// The 32-byte message key of that chain step.
    pub key: Vec<u8>,
    /// The 12-byte nonce of that chain step.
    pub nonce: Vec<u8>,
}

/// The public ephemera of an asynchronous handshake, attached to outgoing
/// messages until the peer has demonstrably completed the session.
#[derive(Debug)]
pub struct HandshakeHeader {
    /// The initiator's classical identity public key.
    pub identity_pub: Vec<u8>,
    /// The initiator's ephemeral classical public key.
    pub ephemeral_pub: Vec<u8>,
    /// The post-quantum KEM ciphertext against the responder's identity.
    pub pq_ciphertext: Vec<u8>,
    /// Which signed pre-key of the responder was used.
    pub signed_pre_key_id: u32,
    /// Which one-time pre-key of the responder was consumed, if any.
    pub one_time_pre_key_id: Option<u32>,
}

/// One encrypted message of a ratchet chain.
#[derive(Clone, Debug)]
pub struct RatchetMessage {
    /// The sending-chain counter the message was encrypted at.
    pub counter: u32,
    /// The AEAD ciphertext of the plaintext.
    pub ciphertext: Vec<u8>,
    /// Handshake ephemera, present while the session is freshly
    /// established outbound.
    pub handshake: Option<HandshakeHeader>,
}

/// Ratchet state of one peer, keyed by that peer's fingerprint hash.
#[derive(Clone, Debug)]
pub struct Session {
    /// The root key both sides derived during the handshake.
    pub root_key: Vec<u8>,
    /// Current sending chain key.
    pub send_chain_key: Vec<u8>,
    /// Counter of the next message to send.
    pub send_counter: u32,
    /// Current receiving chain key.
    pub recv_chain_key: Vec<u8>,
    /// Counter the receiving chain expects next.
    pub recv_counter: u32,
    /// Bounded cache of skipped message keys, counters strictly
    /// increasing, all below `recv_counter`.
    pub skipped: Vec<SkippedKey>,
    /// Whether the peer's identity was verified by the user.
    pub verified: bool,
    /// Handshake ephemera still to be attached to outgoing messages.
    pub pending_handshake: Option<HandshakeHeader>,
}

/// The abstract content of a handshake header.
pub open spec fn header_view(h: HandshakeHeader) -> (Seq<u8>, Seq<u8>, Seq<u8>, u32, Option<u32>) {
    (h.identity_pub@, h.ephemeral_pub@, h.pq_ciphertext@, h.signed_pre_key_id, h.one_time_pre_key_id)
}

/// The abstract content of an optional handshake header.
pub open spec fn opt_header_view(h: Option<HandshakeHeader>) -> Option<
    (Seq<u8>, Seq<u8>, Seq<u8>, u32, Option<u32>),
> {
    match h {
        Some(x) => Some(header_view(x)),
        None => None,
    }
}

impl Clone for HandshakeHeader {
    /// A field-for-field copy.
    fn clone(&self) -> (r: Self)
        ensures
            header_view(r) == header_view(*self),
    {
        HandshakeHeader {
            identity_pub: vstd::slice::slice_to_vec(self.identity_pub.as_slice()),
            ephemeral_pub: vstd::slice::slice_to_vec(self.ephemeral_pub.as_slice()),
            pq_ciphertext: vstd::slice::slice_to_vec(self.pq_ciphertext.as_slice()),
            signed_pre_key_id: self.signed_pre_key_id,
            one_time_pre_key_id: self.one_time_pre_key_id,
        }
    }
}

/// The abstract content of the skipped-key cache.
pub open spec fn skipped_view(sk: Seq<SkippedKey>) -> Seq<(u32, Seq<u8>, Seq<u8>)> {
    sk.map(|i: int, e: SkippedKey| (e.counter, e.key@, e.nonce@))
}

/// The keys a receiving chain at key `ck` and counter `from` skips while
/// advancing to counter `to`.
pub open spec fn skipped_model(ck: Seq<u8>, from: nat, to: nat) -> Seq<(u32, Seq<u8>, Seq<u8>)>
    decreases to - from,
{
    if from >= to {
        Seq::empty()
    } else {
        seq![(from as u32, msg_key_of(ck), msg_nonce_of(ck))] + skipped_model(
            next_chain_key_of(ck),
            from + 1,
            to,
        )
    }
}

/// Well-formedness of a session: key lengths, and a skipped cache whose
/// counters are strictly increasing, below the expected counter, and
/// within capacity.
pub open spec fn wf_session(s: Session) -> bool {
    &&& s.root_key@.len() == 32
    &&& s.send_chain_key@.len() == 32
    &&& s.recv_chain_key@.len() == 32
    &&& s.skipped@.len() <= MAX_SKIP_ENTRIES
    &&& forall|i: int|
        0 <= i < s.skipped@.len() ==> (#[trigger] s.skipped@[i]).key@.len() == 32
            && s.skipped@[i].nonce@.len() == 12 && s.skipped@[i].counter < s.recv_counter
    &&& forall|i: int, j: int|
        0 <= i < j < s.skipped@.len() ==> (#[trigger] s.skipped@[i]).counter < (
        #[trigger] s.skipped@[j]).counter
}

/// Marks the session's peer as verified or unverified by the user.
pub fn verify_session(s: &mut Session, verified: bool)
    ensures
        final(s).verified == verified,
        final(s).root_key == old(s).root_key,
        final(s).send_chain_key == old(s).send_chain_key,
        final(s).send_counter == old(s).send_counter,
        final(s).recv_chain_key == old(s).recv_chain_key,
        final(s).recv_counter == old(s).recv_counter,
        final(s).skipped == old(s).skipped,
        final(s).pending_handshake == old(s).pending_handshake,
        wf_session(*old(s)) ==> wf_session(*final(s)),
{
    s.verified = verified;
}

/// Encrypts a message under the current sending-chain step and advances
/// the chain: the spent message key cannot be recomputed from the new
/// chain key, which is its one-way image.
pub fn ratchet_encrypt(s: &mut Session, plaintext: &[u8]) -> (r: RatchetMessage)
    requires
        wf_session(*old(s)),
        old(s).send_counter < 0xffff_ffff_u32,
        plaintext@.len() <= AEAD_PT_MAX,
    ensures
        wf_session(*final(s)),
        r.counter == old(s).send_counter,
        r.ciphertext@ == aead_enc(
            msg_key_of(old(s).send_chain_key@),
            msg_nonce_of(old(s).send_chain_key@),
            plaintext@,
        ),
        opt_header_view(r.handshake) == opt_header_view(old(s).pending_handshake),
        final(s).send_chain_key@ == next_chain_key_of(old(s).send_chain_key@),
        final(s).send_counter == old(s).send_counter + 1,
        final(s).root_key == old(s).root_key,
        final(s).recv_chain_key == old(s).recv_chain_key,
        final(s).recv_counter == old(s).recv_counter,
        final(s).skipped == old(s).skipped,
        final(s).verified == old(s).verified,
        final(s).pending_handshake == old(s).pending_handshake,
{
    let mk = msg_key(&s.send_chain_key);
    let nonce = msg_nonce(&s.send_chain_key);
    let ciphertext = aead_encrypt(mk.as_slice(), nonce.as_slice(), plaintext);
    let header = match &s.pending_handshake {
        Some(h) => Some(h.clone()),
        None => None,
    };
    let msg = RatchetMessage { counter: s.send_counter, ciphertext, handshake: header };
    s.send_chain_key = next_chain_key(&s.send_chain_key);
    s.send_counter = s.send_counter + 1;
    msg
}

/// Decrypts a message against the session's receiving chain.
///
/// A counter at or ahead of the expected one (within the skip window)
/// advances the chain, caching the keys of the skipped steps; a counter
/// behind it is served from the cache and consumes the entry, so the same
/// counter cannot be decrypted twice.  A counter more than `MAX_SKIP`
/// ahead fails with `TooManySkippedMessages`.  On any failure the session
/// is unchanged.
pub fn ratchet_decrypt(s: &mut Session, msg: &RatchetMessage) -> (r: Result<Vec<u8>, ProtocolError>)
    requires
        wf_session(*old(s)),
    ensures
        wf_session(*final(s)),
        r is Err ==> *final(s) == *old(s),
        r == Err::<Vec<u8>, ProtocolError>(ProtocolError::TooManySkippedMessages) <==> (msg.counter
            >= old(s).recv_counter && (msg.counter - old(s).recv_counter > MAX_SKIP || msg.counter
            == 0xffff_ffff_u32)),
        forall|p: Seq<u8>|
            msg.counter >= old(s).recv_counter && msg.counter - old(s).recv_counter <= MAX_SKIP
                && msg.counter < 0xffff_ffff_u32 && msg.ciphertext@ == #[trigger] aead_enc(
                msg_key_of(step_key(old(s).recv_chain_key@, old(s).recv_counter, msg.counter)),
                msg_nonce_of(step_key(old(s).recv_chain_key@, old(s).recv_counter, msg.counter)),
                p,
            ) ==> r is Ok && r->Ok_0@ == p,
        forall|i: int, p: Seq<u8>|
            0 <= i < old(s).skipped@.len() && old(s).skipped@[i].counter == msg.counter
                && msg.counter < old(s).recv_counter && msg.ciphertext@ == #[trigger] aead_enc(
                (#[trigger] old(s).skipped@[i]).key@,
                old(s).skipped@[i].nonce@,
                p,
            ) ==> r is Ok && r->Ok_0@ == p,
        msg.counter < old(s).recv_counter && (forall|i: int|
            0 <= i < old(s).skipped@.len() ==> (#[trigger] old(s).skipped@[i]).counter
                != msg.counter) ==> r == Err::<Vec<u8>, ProtocolError>(
            ProtocolError::KeyAlreadyConsumed,
        ),
        msg.counter >= old(s).recv_counter && msg.counter - old(s).recv_counter <= MAX_SKIP
            && msg.counter < 0xffff_ffff_u32 && r is Err ==> r == Err::<Vec<u8>, ProtocolError>(
            ProtocolError::AuthenticationFailed,
        ),
        msg.counter < old(s).recv_counter && (exists|i: int|
            0 <= i < old(s).skipped@.len() && (#[trigger] old(s).skipped@[i]).counter
                == msg.counter) && r is Err ==> r == Err::<Vec<u8>, ProtocolError>(
            ProtocolError::AuthenticationFailed,
        ),
        r is Ok && msg.counter >= old(s).recv_counter ==> final(s).recv_counter == msg.counter + 1
            && final(s).recv_chain_key@ == chain_at(
            old(s).recv_chain_key@,
            (msg.counter + 1 - old(s).recv_counter) as nat,
        ) && {
            let combined = skipped_view(old(s).skipped@) + skipped_model(
                old(s).recv_chain_key@,
                old(s).recv_counter as nat,
                msg.counter as nat,
            );
            skipped_view(final(s).skipped@) == combined.skip(
                if combined.len() > MAX_SKIP_ENTRIES {
                    combined.len() - MAX_SKIP_ENTRIES
                } else {
                    0
                },
            )
        },
        r is Ok && msg.counter < old(s).recv_counter ==> final(s).recv_counter == old(
            s,
        ).recv_counter && final(s).recv_chain_key == old(s).recv_chain_key && exists|i: int|
            0 <= i < old(s).skipped@.len() && (#[trigger] old(s).skipped@[i]).counter == msg.counter
                && skipped_view(final(s).skipped@) == skipped_view(old(s).skipped@).remove(i),
        r is Ok ==> final(s).send_chain_key == old(s).send_chain_key && final(s).send_counter == old(
            s,
        ).send_counter && final(s).root_key == old(s).root_key && final(s).verified == old(
            s,
        ).verified && final(s).pending_handshake is None,
{
    if msg.counter >= s.recv_counter {
        let gap = msg.counter - s.recv_counter;
        if gap > MAX_SKIP || msg.counter == 0xffff_ffff_u32 {
            return Err(ProtocolError::TooManySkippedMessages);
        }
        let ghost ck0 = old(s).recv_chain_key@;
        let ghost c0 = old(s).recv_counter;
        let mut ck = s.recv_chain_key.clone();
        let mut fresh: Vec<SkippedKey> = Vec::new();
        let mut c = s.recv_counter;
        proof {
            assert(ck@ == chain_at(ck0, 0));
            assert(skipped_view(fresh@) =~= skipped_model(ck0, c0 as nat, c0 as nat));
        }
        while c < msg.counter
            invariant
                *s == *old(s),
                wf_session(*old(s)),
                c0 == old(s).recv_counter,
                ck0 == old(s).recv_chain_key@,
                c0 <= c <= msg.counter,
                msg.counter < 0xffff_ffff_u32,
                ck@ == chain_at(ck0, (c - c0) as nat),
                ck@.len() == 32,
                fresh@.len() == c - c0,
                skipped_view(fresh@) == skipped_model(ck0, c0 as nat, c as nat),
                forall|i: int|
                    0 <= i < fresh@.len() ==> (#[trigger] fresh@[i]).key@.len() == 32
                        && fresh@[i].nonce@.len() == 12 && fresh@[i].counter == c0 + i,
            decreases msg.counter - c,
        {
            let entry = SkippedKey { counter: c, key: msg_key(&ck), nonce: msg_nonce(&ck) };
            fresh.push(entry);
            proof {
                lemma_skipped_model_snoc(ck0, c0 as nat, c as nat);
                assert(skipped_view(fresh@) =~= skipped_model(ck0, c0 as nat, (c + 1) as nat));
            }
            ck = next_chain_key(&ck);
            c = c + 1;
        }
        let mk = msg_key(&ck);
        let nonce = msg_nonce(&ck);
        let pt = match aead_decrypt(mk.as_slice(), nonce.as_slice(), msg.ciphertext.as_slice()) {
            Some(p) => p,
            None => { return Err(ProtocolError::AuthenticationFailed) },
        };
        let ghost fresh_all = fresh@;
        let ghost combined = skipped_view(old(s).skipped@) + skipped_model(
            ck0,
            c0 as nat,
            msg.counter as nat,
        );
        s.recv_chain_key = next_chain_key(&ck);
        s.recv_counter = msg.counter + 1;
        s.skipped.append(&mut fresh);
        proof {
            assert(skipped_view(fresh_all) == skipped_model(ck0, c0 as nat, msg.counter as nat));
            assert(skipped_view(s.skipped@) =~= combined);
            assert(combined.skip(0) =~= combined);
            assert(forall|a: int, b: int|
                0 <= a < b < s.skipped@.len() ==> (#[trigger] s.skipped@[a]).counter < (
                #[trigger] s.skipped@[b]).counter) by {
                assert(forall|a: int|
                    0 <= a < old(s).skipped@.len() ==> (#[trigger] s.skipped@[a]).counter == old(
                    s,
                ).skipped@[a].counter && s.skipped@[a].counter < c0);
                assert(forall|a: int|
                    old(s).skipped@.len() <= a < s.skipped@.len()
                        ==> (#[trigger] s.skipped@[a]).counter == c0 + (a - old(
                    s,
                ).skipped@.len()));
            }
        }
        while s.skipped.len() > MAX_SKIP_ENTRIES
            invariant
                s.root_key == old(s).root_key,
                s.send_chain_key == old(s).send_chain_key,
                s.send_counter == old(s).send_counter,
                s.verified == old(s).verified,
                s.pending_handshake == old(s).pending_handshake,
                s.recv_counter == msg.counter + 1,
                s.recv_chain_key@ == chain_at(ck0, (msg.counter + 1 - c0) as nat),
                s.recv_chain_key@.len() == 32,
                msg.counter < 0xffff_ffff_u32,
                s.skipped@.len() <= combined.len(),
                combined.len() > MAX_SKIP_ENTRIES ==> s.skipped@.len() >= MAX_SKIP_ENTRIES,
                combined.len() <= MAX_SKIP_ENTRIES ==> s.skipped@.len() == combined.len(),
                skipped_view(s.skipped@) == combined.skip(combined.len() - s.skipped@.len()),
                forall|j: int|
                    0 <= j < s.skipped@.len() ==> (#[trigger] s.skipped@[j]).key@.len() == 32
                        && s.skipped@[j].nonce@.len() == 12 && s.skipped@[j].counter
                        < s.recv_counter,
                forall|a: int, b: int|
                    0 <= a < b < s.skipped@.len() ==> (#[trigger] s.skipped@[a]).counter < (
                    #[trigger] s.skipped@[b]).counter,
            decreases s.skipped@.len(),
        {
            let ghost before = s.skipped@;
            s.skipped.remove(0);
            proof {
                assert(s.skipped@ =~= before.skip(1));
                assert(skipped_view(s.skipped@) =~= skipped_view(before).skip(1));
                assert(skipped_view(before).skip(1) =~= combined.skip(
                    combined.len() - s.skipped@.len(),
                ));
            }
        }
        s.pending_handshake = None;
        proof {
            assert(combined.len() > MAX_SKIP_ENTRIES ==> s.skipped@.len() == MAX_SKIP_ENTRIES);
            assert(combined.len() <= MAX_SKIP_ENTRIES ==> s.skipped@.len() == combined.len());
        }
        Ok(pt)
    } else {
        let mut idx: usize = 0;
        let mut found = false;
        while idx < s.skipped.len() && !found
            invariant
                *s == *old(s),
                wf_session(*old(s)),
                idx <= s.skipped@.len(),
                found ==> idx < s.skipped@.len() && s.skipped@[idx as int].counter == msg.counter,
                !found ==> forall|j: int|
                    0 <= j < idx ==> (#[trigger] s.skipped@[j]).counter != msg.counter,
            decreases s.skipped@.len() - idx + (if found {
                0int
            } else {
                1int
            }),
        {
            if s.skipped[idx].counter == msg.counter {
                found = true;
            } else {
                idx = idx + 1;
            }
        }
        if !found {
            return Err(ProtocolError::KeyAlreadyConsumed);
        }
        let entry_key = s.skipped[idx].key.clone();
        let entry_nonce = s.skipped[idx].nonce.clone();
        let pt = match aead_decrypt(
            entry_key.as_slice(),
            entry_nonce.as_slice(),
            msg.ciphertext.as_slice(),
        ) {
            Some(p) => p,
            None => { return Err(ProtocolError::AuthenticationFailed) },
        };
        let ghost before = s.skipped@;
        let ghost at = idx as int;
        s.skipped.remove(idx);
        s.pending_handshake = None;
        proof {
            assert(skipped_view(s.skipped@) =~= skipped_view(before).remove(at));
            assert(forall|i: int|
                0 <= i < before.len() && (#[trigger] before[i]).counter == msg.counter ==> i == at)
                by {
                assert(forall|i: int|
                    0 <= i < before.len() && i != at && (#[trigger] before[i]).counter
                        == msg.counter ==> false);
            }
        }
        Ok(pt)
    }
}

/// Forward secrecy, as far as it is a statement about key schedules: the
/// chain key after `n` encrypts determines every later step by itself —
/// the key of message `n + k` is a function of the current chain key
/// alone, so no discarded message key is an input to any later one, and
/// recovering an earlier step would mean inverting the one-way advance.
pub proof fn lemma_forward_secrecy(ck0: Seq<u8>, n: nat, k: nat)
    ensures
        msg_key_of(chain_at(ck0, n + k)) == msg_key_of(chain_at(chain_at(ck0, n), k)),
        chain_at(ck0, n + k) == chain_at(chain_at(ck0, n), k),
{
    crate::kdf::lemma_chain_shift(ck0, n, k);
}

/// One-time use of cached keys: once a decrypt consumes the cache entry
/// of a counter, no entry for that counter remains, so a replay of the
/// same counter can only fail with `KeyAlreadyConsumed`.
pub proof fn lemma_skipped_key_consumed(sk: Seq<SkippedKey>, i: int, c: u32)
    requires
        0 <= i < sk.len(),
        sk[i].counter == c,
        forall|a: int, b: int|
            0 <= a < b < sk.len() ==> (#[trigger] sk[a]).counter < (#[trigger] sk[b]).counter,
    ensures
        forall|j: int|
            0 <= j < skipped_view(sk).remove(i).len() ==> (#[trigger] skipped_view(sk).remove(i)[j]).0
                != c,
{
    assert forall|j: int|
        0 <= j < skipped_view(sk).remove(i).len() implies (#[trigger] skipped_view(sk).remove(
        i,
    )[j]).0 != c by {
        if j < i {
            assert(skipped_view(sk).remove(i)[j] == skipped_view(sk)[j]);
            assert(sk[j].counter < sk[i].counter);
        } else {
            assert(skipped_view(sk).remove(i)[j] == skipped_view(sk)[j + 1]);
            assert(sk[i].counter < sk[j + 1].counter);
        }
    }
}

/// Extending the skipped range by one step appends exactly the key and
/// nonce of the next chain counter.
proof fn lemma_skipped_model_snoc(ck: Seq<u8>, from: nat, to: nat)
    requires
        from <= to,
    ensures
        skipped_model(ck, from, to + 1) == skipped_model(ck, from, to) + seq![
            (to as u32, msg_key_of(chain_at(ck, (to - from) as nat)), msg_nonce_of(
                chain_at(ck, (to - from) as nat),
            )),
        ],
    decreases to - from,
{
    if from >= to {
        assert(skipped_model(ck, from, to) =~= Seq::empty());
        assert(chain_at(ck, 0) == ck);
        assert(skipped_model(next_chain_key_of(ck), from + 1, to + 1) =~= Seq::empty());
        assert(skipped_model(ck, from, to + 1) =~= seq![
            (to as u32, msg_key_of(ck), msg_nonce_of(ck)),
        ]);
    } else {
        lemma_skipped_model_snoc(next_chain_key_of(ck), from + 1, to);
        assert(chain_at(next_chain_key_of(ck), (to - from - 1) as nat) == chain_at(
            ck,
            (to - from) as nat,
        )) by {
            crate::kdf::lemma_chain_shift(ck, 1, (to - from - 1) as nat);
            assert(chain_at(ck, 0) == ck);
            assert(chain_at(ck, 1) == next_chain_key_of(chain_at(ck, 0)));
        }
        assert(skipped_model(ck, from, to + 1) =~= skipped_model(ck, from, to) + seq![
            (to as u32, msg_key_of(chain_at(ck, (to - from) as nat)), msg_nonce_of(
                chain_at(ck, (to - from) as nat),
            )),
        ]);
    }
}

} // verus!
