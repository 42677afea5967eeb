//! Cryptographic core of an end-to-end encrypted messenger.
//!
//! The crate manages durable identity key material, negotiates pairwise and
//! group session secrets, performs forward-secret message encryption and
//! decryption, seals sender identity for first-contact delivery, and encrypts
//! media payloads.  Persistence and transport are collaborators of the host
//! application: every operation here is a pure state transformer that takes
//! entity state in and hands the advanced state back.

pub mod errors;
pub mod crypto;
pub mod bytes;
pub mod kdf;
pub mod media;
pub mod ratchet;
pub mod fingerprint;
pub mod identity;
pub mod sealed;
pub mod group;
pub mod establish;
pub mod preview;
