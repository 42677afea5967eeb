use base64::Engine;
use entropy_core::errors::ProtocolError;
use entropy_core::establish::{establish_inbound_session, establish_outbound_session, ratchet_receive};
use entropy_core::fingerprint::protocol_get_safety_number;
use entropy_core::identity::{generate_new_identity, identity_public_bundle};
use entropy_core::ratchet::{ratchet_decrypt, ratchet_encrypt, verify_session, HandshakeHeader, RatchetMessage, Session};

#[test]
fn handshake_and_two_way_messages() {
    let alice = generate_new_identity();
    let bob = generate_new_identity();
    let bundle = identity_public_bundle(&alice);

    let mut bob_session = establish_outbound_session(&bob, &bundle).unwrap();
    assert!(!bob_session.verified);

    let hello = ratchet_encrypt(&mut bob_session, b"hello");
    assert!(hello.handshake.is_some());

    let mut alice_session: Option<Session> = None;
    let pt = ratchet_receive(&alice, &mut alice_session, &hello).unwrap();
    assert_eq!(pt, b"hello".to_vec());
    assert!(alice_session.is_some());

    let reply = ratchet_encrypt(alice_session.as_mut().unwrap(), b"hi");
    let pt2 = ratchet_decrypt(&mut bob_session, &reply).unwrap();
    assert_eq!(pt2, b"hi".to_vec());

    let a_ik = base64::engine::general_purpose::STANDARD.encode(&alice.dh_public);
    let b_ik = base64::engine::general_purpose::STANDARD.encode(&bob.dh_public);
    let seen_by_alice = protocol_get_safety_number(&a_ik, &b_ik).unwrap();
    let seen_by_bob = protocol_get_safety_number(&b_ik, &a_ik).unwrap();
    assert_eq!(seen_by_alice, seen_by_bob);
}

#[test]
fn out_of_order_delivery_and_replay() {
    let alice = generate_new_identity();
    let bob = generate_new_identity();
    let bundle = identity_public_bundle(&alice);
    let mut bob_session = establish_outbound_session(&bob, &bundle).unwrap();

    let bodies: Vec<&[u8]> = vec![b"m1", b"m2", b"m3", b"m4", b"m5"];
    let mut msgs: Vec<RatchetMessage> = Vec::new();
    for b in &bodies {
        msgs.push(ratchet_encrypt(&mut bob_session, b));
    }

    let mut alice_session: Option<Session> = None;
    let order = [2usize, 0, 4, 1, 3];
    for &i in &order {
        let pt = ratchet_receive(&alice, &mut alice_session, &msgs[i]).unwrap();
        assert_eq!(pt, bodies[i].to_vec());
    }

    match ratchet_receive(&alice, &mut alice_session, &msgs[2]) {
        Err(ProtocolError::KeyAlreadyConsumed) => {}
        other => panic!("expected KeyAlreadyConsumed, got {:?}", other),
    }
}

#[test]
fn skip_window_boundary() {
    let alice = generate_new_identity();
    let bob = generate_new_identity();
    let bundle = identity_public_bundle(&alice);
    let mut bob_session = establish_outbound_session(&bob, &bundle).unwrap();

    let mut last = ratchet_encrypt(&mut bob_session, b"x");
    for _ in 0..65 {
        last = ratchet_encrypt(&mut bob_session, b"x");
    }
    assert_eq!(last.counter, 65);

    let mut alice_session: Option<Session> = None;
    match ratchet_receive(&alice, &mut alice_session, &last) {
        Err(ProtocolError::TooManySkippedMessages) => {}
        other => panic!("expected TooManySkippedMessages, got {:?}", other),
    }
}

#[test]
fn session_not_found_without_handshake_material() {
    let alice = generate_new_identity();
    let mut none_session: Option<Session> = None;
    let naked = RatchetMessage { counter: 0, ciphertext: vec![1, 2, 3], handshake: None };
    match ratchet_receive(&alice, &mut none_session, &naked) {
        Err(ProtocolError::SessionNotFound) => {}
        other => panic!("expected SessionNotFound, got {:?}", other),
    }
}

#[test]
fn tampered_ciphertext_fails_authentication() {
    let alice = generate_new_identity();
    let bob = generate_new_identity();
    let bundle = identity_public_bundle(&alice);
    let mut bob_session = establish_outbound_session(&bob, &bundle).unwrap();
    let mut msg = ratchet_encrypt(&mut bob_session, b"hello");
    msg.ciphertext[0] ^= 0x80;
    let mut alice_session: Option<Session> = None;
    match ratchet_receive(&alice, &mut alice_session, &msg) {
        Err(ProtocolError::AuthenticationFailed) => {}
        other => panic!("expected AuthenticationFailed, got {:?}", other),
    }
}

#[test]
fn bad_bundle_shapes() {
    let alice = generate_new_identity();
    let bob = generate_new_identity();

    let mut truncated = identity_public_bundle(&alice);
    truncated.signed_pre_key.pop();
    match establish_outbound_session(&bob, &truncated) {
        Err(ProtocolError::MalformedBundle) => {}
        other => panic!("expected MalformedBundle, got {:?}", other),
    }

    let mut forged = identity_public_bundle(&alice);
    forged.signed_pre_key_signature[5] ^= 1;
    match establish_outbound_session(&bob, &forged) {
        Err(ProtocolError::InvalidSignature) => {}
        other => panic!("expected InvalidSignature, got {:?}", other),
    }
}

#[test]
fn missing_pre_key_on_inbound() {
    let alice = generate_new_identity();
    let header = HandshakeHeader {
        identity_pub: vec![1u8; 32],
        ephemeral_pub: vec![2u8; 32],
        pq_ciphertext: vec![0u8; 1568],
        signed_pre_key_id: 1,
        one_time_pre_key_id: Some(9999),
    };
    match establish_inbound_session(&alice, &header) {
        Err(ProtocolError::MissingPreKey) => {}
        other => panic!("expected MissingPreKey, got {:?}", other),
    }
}

#[test]
fn verify_session_sets_trust_flag() {
    let alice = generate_new_identity();
    let bob = generate_new_identity();
    let bundle = identity_public_bundle(&alice);
    let mut s = establish_outbound_session(&bob, &bundle).unwrap();
    assert!(!s.verified);
    verify_session(&mut s, true);
    assert!(s.verified);
    verify_session(&mut s, false);
    assert!(!s.verified);
}

#[test]
fn handshake_header_cleared_after_first_receipt() {
    let alice = generate_new_identity();
    let bob = generate_new_identity();
    let bundle = identity_public_bundle(&alice);
    let mut bob_session = establish_outbound_session(&bob, &bundle).unwrap();
    let m1 = ratchet_encrypt(&mut bob_session, b"one");
    assert!(m1.handshake.is_some());
    let mut alice_session: Option<Session> = None;
    ratchet_receive(&alice, &mut alice_session, &m1).unwrap();
    let from_alice = ratchet_encrypt(alice_session.as_mut().unwrap(), b"two");
    assert!(from_alice.handshake.is_none());
}

#[test]
fn skip_cache_eviction_drops_oldest_key() {
    let alice = generate_new_identity();
    let bob = generate_new_identity();
    let bundle = identity_public_bundle(&alice);
    let mut bob_session = establish_outbound_session(&bob, &bundle).unwrap();

    let mut msgs: Vec<RatchetMessage> = Vec::new();
    for _ in 0..67 {
        msgs.push(ratchet_encrypt(&mut bob_session, b"w"));
    }

    // Receiving counter 64 first is exactly at the window boundary and
    // caches the 64 skipped keys for counters 0..=63.
    let mut alice_session: Option<Session> = None;
    assert_eq!(
        ratchet_receive(&alice, &mut alice_session, &msgs[64]).unwrap(),
        b"w".to_vec()
    );
    // Skipping one more counter (66) evicts the oldest cached key (0).
    assert_eq!(
        ratchet_receive(&alice, &mut alice_session, &msgs[66]).unwrap(),
        b"w".to_vec()
    );
    match ratchet_receive(&alice, &mut alice_session, &msgs[0]) {
        Err(ProtocolError::KeyAlreadyConsumed) => {}
        other => panic!("expected KeyAlreadyConsumed, got {:?}", other),
    }
    // A younger skipped counter is still served from the cache.
    assert_eq!(
        ratchet_receive(&alice, &mut alice_session, &msgs[1]).unwrap(),
        b"w".to_vec()
    );
}
