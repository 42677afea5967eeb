//! Key-derivation rules of the protocol.
//!
//! Every chain in this core (pairwise ratchet chains, group sender chains)
//! advances by the same one-way step: hashing the chain key with a fixed
//! domain-separation suffix.  Root and chain seeds are derived from the
//! handshake secrets with fixed domain-separation prefixes.  These constants
//! are part of the wire contract; changing them breaks interoperability with
//! previously established sessions.

use vstd::prelude::*;
use crate::crypto::sha256;
use crate::crypto::sha256_of;
use crate::bytes::append_bytes;

verus! {

/// Domain suffix of the chain-key advance step.
pub const TAG_CHAIN: u8 = 1;

/// Domain suffix of the per-message key derivation.
pub const TAG_MSG_KEY: u8 = 2;

/// Domain suffix of the per-message nonce derivation.
pub const TAG_NONCE: u8 = 3;

/// Domain prefix of the root-key derivation from handshake secrets.
pub const TAG_ROOT: u8 = 16;

/// Domain prefix of the initiator-to-responder chain seed.
pub const TAG_CHAIN_A: u8 = 17;

/// Domain prefix of the responder-to-initiator chain seed.
pub const TAG_CHAIN_B: u8 = 18;

/// The next chain key: a one-way image of the current one.
pub open spec fn next_chain_key_of(ck: Seq<u8>) -> Seq<u8> {
    sha256_of(ck.push(TAG_CHAIN))
}

/// The message key a chain step spends; discarded after one use.
pub open spec fn msg_key_of(ck: Seq<u8>) -> Seq<u8> {
    sha256_of(ck.push(TAG_MSG_KEY))
}

/// The AEAD nonce a chain step uses; each message key is used once, under
/// this one nonce.
pub open spec fn msg_nonce_of(ck: Seq<u8>) -> Seq<u8> {
    sha256_of(ck.push(TAG_NONCE)).take(12)
}

/// The chain key after `n` advance steps.
pub open spec fn chain_at(ck: Seq<u8>, n: nat) -> Seq<u8>
    decreases n,
{
    if n == 0 {
        ck
    } else {
        next_chain_key_of(chain_at(ck, (n - 1) as nat))
    }
}

/// The chain key a receiving chain at counter `from` reaches when it
/// advances to counter `to`.
pub open spec fn step_key(ck: Seq<u8>, from: u32, to: u32) -> Seq<u8> {
    chain_at(ck, (to - from) as nat)
}

/// A seed derived from concatenated handshake secrets under a domain tag.
pub open spec fn derived_key_of(tag: u8, secrets: Seq<u8>) -> Seq<u8> {
    sha256_of(seq![tag] + secrets)
}

/// Hashes a chain key with a domain suffix.
fn tagged_hash(ck: &Vec<u8>, tag: u8) -> (r: Vec<u8>)
    ensures
        r@ == sha256_of(ck@.push(tag)),
        r@.len() == 32,
{
    let mut buf = ck.clone();
    buf.push(tag);
    sha256(buf.as_slice())
}

/// Advances a chain key one step.
pub fn next_chain_key(ck: &Vec<u8>) -> (r: Vec<u8>)
    ensures
        r@ == next_chain_key_of(ck@),
        r@.len() == 32,
{
    tagged_hash(ck, TAG_CHAIN)
}

/// Derives the message key the current chain step spends.
pub fn msg_key(ck: &Vec<u8>) -> (r: Vec<u8>)
    ensures
        r@ == msg_key_of(ck@),
        r@.len() == 32,
{
    tagged_hash(ck, TAG_MSG_KEY)
}

/// Derives the nonce the current chain step uses.
pub fn msg_nonce(ck: &Vec<u8>) -> (r: Vec<u8>)
    ensures
        r@ == msg_nonce_of(ck@),
        r@.len() == 12,
{
    let mut h = tagged_hash(ck, TAG_NONCE);
    h.truncate(12);
    proof {
        assert(h@ =~= sha256_of(ck@.push(TAG_NONCE)).take(12));
    }
    h
}

/// Derives a seed from the handshake secrets under a domain tag.
pub fn derived_key(tag: u8, secrets: &Vec<u8>) -> (r: Vec<u8>)
    ensures
        r@ == derived_key_of(tag, secrets@),
        r@.len() == 32,
{
    let mut buf: Vec<u8> = Vec::new();
    buf.push(tag);
    append_bytes(&mut buf, secrets.as_slice());
    proof {
        assert(buf@ =~= seq![tag] + secrets@);
    }
    sha256(buf.as_slice())
}

/// After the chain advances, the keys of all later steps are images of the
/// new chain key alone: step `n + k` of the old chain is step `k` of the
/// new one, so no discarded step is an input to any later key.
pub proof fn lemma_chain_shift(ck: Seq<u8>, n: nat, k: nat)
    ensures
        chain_at(ck, n + k) == chain_at(chain_at(ck, n), k),
    decreases k,
{
    if k > 0 {
        lemma_chain_shift(ck, n, (k - 1) as nat);
        assert(chain_at(ck, n + k) == next_chain_key_of(chain_at(ck, (n + k - 1) as nat)));
    }
}

} // verus!
