use entropy_core::errors::ProtocolError;
use entropy_core::group::{
    create_group_distribution_message, group_decrypt, group_encrypt, group_init,
    group_state_or_new, process_group_distribution, require_group, GroupState,
};

fn make_pair() -> (GroupState, GroupState) {
    let (alice_group, dist) = group_init(String::from("room-1"));
    let mut bob_group = group_state_or_new(None, &String::from("room-1"));
    process_group_distribution(&mut bob_group, &String::from("alice-fp"), &dist).unwrap();
    (alice_group, bob_group)
}

#[test]
fn group_round_trip() {
    let (mut alice_group, mut bob_group) = make_pair();
    let msg = group_encrypt(&mut alice_group, b"hello group").unwrap();
    assert_eq!(msg.counter, 0);
    let pt = group_decrypt(&mut bob_group, &String::from("alice-fp"), &msg).unwrap();
    assert_eq!(pt, b"hello group".to_vec());
}

#[test]
fn group_replay_fails_next_counter_advances() {
    let (mut alice_group, mut bob_group) = make_pair();
    let m0 = group_encrypt(&mut alice_group, b"zero").unwrap();
    let m1 = group_encrypt(&mut alice_group, b"one").unwrap();
    assert_eq!(m1.counter, 1);

    let sender = String::from("alice-fp");
    assert_eq!(group_decrypt(&mut bob_group, &sender, &m0).unwrap(), b"zero".to_vec());
    match group_decrypt(&mut bob_group, &sender, &m0) {
        Err(ProtocolError::ReplayDetected) => {}
        other => panic!("expected ReplayDetected, got {:?}", other),
    }
    assert_eq!(group_decrypt(&mut bob_group, &sender, &m1).unwrap(), b"one".to_vec());
}

#[test]
fn group_gap_is_tolerated_forward_only() {
    let (mut alice_group, mut bob_group) = make_pair();
    let _m0 = group_encrypt(&mut alice_group, b"zero").unwrap();
    let _m1 = group_encrypt(&mut alice_group, b"one").unwrap();
    let m2 = group_encrypt(&mut alice_group, b"two").unwrap();
    let sender = String::from("alice-fp");
    assert_eq!(group_decrypt(&mut bob_group, &sender, &m2).unwrap(), b"two".to_vec());
    match group_decrypt(&mut bob_group, &sender, &_m0) {
        Err(ProtocolError::ReplayDetected) => {}
        other => panic!("expected ReplayDetected, got {:?}", other),
    }
}

#[test]
fn group_unknown_sender() {
    let (mut alice_group, mut bob_group) = make_pair();
    let msg = group_encrypt(&mut alice_group, b"hello").unwrap();
    match group_decrypt(&mut bob_group, &String::from("mallory-fp"), &msg) {
        Err(ProtocolError::UnknownSender) => {}
        other => panic!("expected UnknownSender, got {:?}", other),
    }
}

#[test]
fn group_signature_tamper_fails() {
    let (mut alice_group, mut bob_group) = make_pair();
    let mut msg = group_encrypt(&mut alice_group, b"hello").unwrap();
    msg.signature[0] ^= 1;
    match group_decrypt(&mut bob_group, &String::from("alice-fp"), &msg) {
        Err(ProtocolError::AuthenticationFailed) => {}
        other => panic!("expected AuthenticationFailed, got {:?}", other),
    }
}

#[test]
fn group_ciphertext_tamper_fails() {
    let (mut alice_group, mut bob_group) = make_pair();
    let mut msg = group_encrypt(&mut alice_group, b"hello").unwrap();
    let n = msg.ciphertext.len();
    msg.ciphertext[n - 1] ^= 1;
    match group_decrypt(&mut bob_group, &String::from("alice-fp"), &msg) {
        Err(ProtocolError::AuthenticationFailed) => {}
        other => panic!("expected AuthenticationFailed, got {:?}", other),
    }
}

#[test]
fn group_no_local_sender_key() {
    let bob_group = group_state_or_new(None, &String::from("room-1"));
    match create_group_distribution_message(&bob_group) {
        Err(ProtocolError::NoLocalSenderKey) => {}
        other => panic!("expected NoLocalSenderKey, got {:?}", other),
    }
    let mut bob_group2 = bob_group;
    match group_encrypt(&mut bob_group2, b"nope") {
        Err(ProtocolError::NoLocalSenderKey) => {}
        other => panic!("expected NoLocalSenderKey, got {:?}", other),
    }
}

#[test]
fn group_not_found_and_rekey_resets_chain() {
    match require_group(None) {
        Err(ProtocolError::GroupNotFound) => {}
        other => panic!("expected GroupNotFound, got {:?}", other),
    }

    let (mut alice_group, mut bob_group) = make_pair();
    let _ = group_encrypt(&mut alice_group, b"zero").unwrap();
    let m1 = group_encrypt(&mut alice_group, b"one").unwrap();
    let sender = String::from("alice-fp");
    assert_eq!(group_decrypt(&mut bob_group, &sender, &m1).unwrap(), b"one".to_vec());

    // A reissued distribution resets the member's chain to the sender's
    // current position: the documented rekey mechanism.
    let dist = create_group_distribution_message(&alice_group).unwrap();
    process_group_distribution(&mut bob_group, &sender, &dist).unwrap();
    let m2 = group_encrypt(&mut alice_group, b"two").unwrap();
    assert_eq!(group_decrypt(&mut bob_group, &sender, &m2).unwrap(), b"two".to_vec());
}

#[test]
fn group_distribution_bad_lengths() {
    let (alice_group, mut bob_group) = make_pair();
    let mut dist = create_group_distribution_message(&alice_group).unwrap();
    dist.chain_key.pop();
    match process_group_distribution(&mut bob_group, &String::from("alice-fp"), &dist) {
        Err(ProtocolError::InvalidKeyMaterial) => {}
        other => panic!("expected InvalidKeyMaterial, got {:?}", other),
    }
}
