use base64::Engine;
use entropy_core::errors::ProtocolError;
use entropy_core::fingerprint::{calculate_safety_number, protocol_get_safety_number};
use entropy_core::identity::{
    generate_new_identity, identity_or_generate, identity_public_bundle, require_identity,
    sign_message,
};
use entropy_core::preview::extract_title;
use entropy_core::sealed::{seal_sender, unseal_sender, SealedEnvelope};

#[test]
fn sealed_round_trip() {
    let alice = generate_new_identity();
    let bob = generate_new_identity();
    let env = seal_sender(
        b"first contact",
        &bob.dh_public,
        &alice.dh_public,
        &alice.pq_public,
    )
    .unwrap();
    let (sender, message) = unseal_sender(&env, &alice.dh_private, &alice.pq_private).unwrap();
    assert_eq!(sender, bob.dh_public);
    assert_eq!(message, b"first contact".to_vec());
}

#[test]
fn sealed_tamper_fails() {
    let alice = generate_new_identity();
    let bob = generate_new_identity();
    let mut env = seal_sender(b"msg", &bob.dh_public, &alice.dh_public, &alice.pq_public)
        .unwrap();
    env.ciphertext[2] ^= 4;
    match unseal_sender(&env, &alice.dh_private, &alice.pq_private) {
        Err(ProtocolError::AuthenticationFailed) => {}
        other => panic!("expected AuthenticationFailed, got {:?}", other),
    }
}

#[test]
fn sealed_invalid_key_material() {
    let alice = generate_new_identity();
    let bob = generate_new_identity();
    match seal_sender(b"msg", &bob.dh_public, &alice.dh_public[..16], &alice.pq_public) {
        Err(ProtocolError::InvalidKeyMaterial) => {}
        other => panic!("expected InvalidKeyMaterial, got {:?}", other),
    }
    let env = SealedEnvelope {
        ephemeral_pub: vec![0u8; 16],
        pq_ciphertext: vec![0u8; 1568],
        ciphertext: vec![0u8; 32],
    };
    match unseal_sender(&env, &alice.dh_private, &alice.pq_private) {
        Err(ProtocolError::InvalidKeyMaterial) => {}
        other => panic!("expected InvalidKeyMaterial, got {:?}", other),
    }
}

#[test]
fn safety_number_is_symmetric_and_stable() {
    let a = vec![3u8; 32];
    let b = vec![200u8; 32];
    let ab = calculate_safety_number(&a, &b);
    let ba = calculate_safety_number(&b, &a);
    assert_eq!(ab, ba);
    assert_eq!(ab.len(), 64);
    assert_eq!(ab, calculate_safety_number(&a, &b));
    assert_ne!(ab, calculate_safety_number(&a, &a));
}

#[test]
fn safety_number_rejects_bad_base64() {
    match protocol_get_safety_number("@@@", "AAAA") {
        Err(ProtocolError::EncodingError) => {}
        other => panic!("expected EncodingError, got {:?}", other),
    }
}

#[test]
fn identity_generation_and_bundle() {
    let alice = generate_new_identity();
    assert_eq!(alice.dh_public.len(), 32);
    assert_eq!(alice.ed_public.len(), 32);
    assert_eq!(alice.pq_public.len(), 1568);
    assert_eq!(alice.pre_keys.len(), 10);
    let bundle = identity_public_bundle(&alice);
    assert_eq!(bundle.identity_key, alice.dh_public);
    assert_eq!(bundle.signed_pre_key, alice.signed_pre_key.public_key);
    let otpk = bundle.one_time_pre_key.unwrap();
    assert_eq!(otpk.key_id, alice.pre_keys[0].key_id);
}

#[test]
fn replenish_appends_fresh_sequential_ids() {
    let mut alice = generate_new_identity();
    let before = alice.pre_keys.len();
    let last_id = alice.pre_keys[before - 1].key_id;
    let fresh = alice.replenish_pre_keys(5);
    assert_eq!(fresh.len(), 5);
    assert_eq!(alice.pre_keys.len(), before + 5);
    // The new entries come back newest first.
    for (i, pk) in fresh.iter().enumerate() {
        assert_eq!(pk.key_id, last_id + 5 - i as u32);
    }
}

#[test]
fn require_identity_not_initialized() {
    match require_identity(None) {
        Err(ProtocolError::NotInitialized) => {}
        other => panic!("expected NotInitialized, got {:?}", other),
    }
    let alice = generate_new_identity();
    let reg = alice.registration_id;
    let got = require_identity(Some(alice)).unwrap();
    assert_eq!(got.registration_id, reg);
}

#[test]
fn load_or_create_is_idempotent() {
    let alice = generate_new_identity();
    let reg = alice.registration_id;
    let (same, created) = identity_or_generate(Some(alice));
    assert!(!created);
    assert_eq!(same.registration_id, reg);
    let (fresh, created2) = identity_or_generate(None);
    assert!(created2);
    assert_eq!(fresh.pre_keys.len(), 10);
}

#[test]
fn signing_is_deterministic_base64() {
    let alice = generate_new_identity();
    let s1 = sign_message(&alice, b"payload");
    let s2 = sign_message(&alice, b"payload");
    assert_eq!(s1, s2);
    let raw = base64::engine::general_purpose::STANDARD.decode(&s1).unwrap();
    assert_eq!(raw.len(), 64);
}

#[test]
fn title_extraction() {
    let html = b"<html><head><title>Entropy</title></head></html>";
    let t = extract_title(html, b"<title>", b"</title>").unwrap();
    assert_eq!(t, b"Entropy".to_vec());
    assert!(extract_title(b"<html></html>", b"<title>", b"</title>").is_none());
    assert!(extract_title(b"<title>open only", b"<title>", b"</title>").is_none());
}
