//! Typed failures of the protocol core.
//!
//! Every operation reports its failure as one of these variants; no error is
//! silently swallowed, and a failing operation leaves the entity state it was
//! given unchanged.

use vstd::prelude::*;

verus! {

/// The failure taxonomy of the protocol core.
#[derive(Clone, Copy, Debug, PartialEq, Eq, Structural)]
pub enum ProtocolError {
    /// No identity or vault exists yet; recoverable by initializing.
    NotInitialized,
    /// A key, nonce or other cryptographic input is structurally invalid.
    InvalidKeyMaterial,
    /// A published bundle or message is missing fields or shaped wrongly.
    MalformedBundle,
    /// A textual field failed base64 or hex decoding.
    EncodingError,
    /// A signature did not verify against the expected public key.
    InvalidSignature,
    /// Authenticated decryption or signature verification failed.
    AuthenticationFailed,
    /// The plaintext digest of decrypted media does not match its bundle.
    DigestMismatch,
    /// No ratchet session exists for the peer.
    SessionNotFound,
    /// No group state exists for the group id.
    GroupNotFound,
    /// A group message arrived from a member with no imported sender key.
    UnknownSender,
    /// A message counter lies beyond the bounded skip window.
    TooManySkippedMessages,
    /// A group message counter rewound below the stored chain counter.
    ReplayDetected,
    /// A skipped message key was already consumed by an earlier decrypt.
    KeyAlreadyConsumed,
    /// The remote bundle lacks a pre-key this handshake needs.
    MissingPreKey,
    /// This identity has not created a sender key for the group yet.
    NoLocalSenderKey,
}

impl ProtocolError {
    /// A stable textual form of the variant, for host-facing reporting.
    pub fn text(&self) -> &'static str {
        match self {
            ProtocolError::NotInitialized => "vault not initialized",
            ProtocolError::InvalidKeyMaterial => "invalid key material",
            ProtocolError::MalformedBundle => "malformed bundle",
            ProtocolError::EncodingError => "encoding error",
            ProtocolError::InvalidSignature => "invalid signature",
            ProtocolError::AuthenticationFailed => "authentication failed",
            ProtocolError::DigestMismatch => "media digest mismatch",
            ProtocolError::SessionNotFound => "session not found",
            ProtocolError::GroupNotFound => "group not found",
            ProtocolError::UnknownSender => "unknown group sender",
            ProtocolError::TooManySkippedMessages => "too many skipped messages",
            ProtocolError::ReplayDetected => "replay detected",
            ProtocolError::KeyAlreadyConsumed => "message key already consumed",
            ProtocolError::MissingPreKey => "missing pre-key",
            ProtocolError::NoLocalSenderKey => "no local sender key",
        }
    }
}

} // verus!
