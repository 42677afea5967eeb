use base64::Engine;
use entropy_core::media::{
    decrypt_media, decrypt_media_chunk, encrypt_media, encrypt_media_chunk,
    protocol_decrypt_media, protocol_decrypt_media_chunk, protocol_encrypt_media,
    protocol_encrypt_media_chunk, MediaKeyBundle,
};
use entropy_core::errors::ProtocolError;

#[test]
fn media_round_trip() {
    let data = b"attachment payload bytes".to_vec();
    let (ct, bundle) = encrypt_media(&data, "photo.png", "image/png").unwrap();
    assert_eq!(bundle.file_name, "photo.png");
    assert_eq!(bundle.file_type, "image/png");
    assert!(!bundle.is_chunked);
    let pt = decrypt_media(&ct, &bundle).unwrap();
    assert_eq!(pt, data);
}

#[test]
fn media_round_trip_hex() {
    let data = b"hex shipped payload".to_vec();
    let (hex_ct, bundle) = protocol_encrypt_media(&data, "a.bin", "application/octet-stream")
        .unwrap();
    let pt = protocol_decrypt_media(&hex_ct, &bundle).unwrap();
    assert_eq!(pt, data);
}

#[test]
fn media_tamper_fails_aead_before_digest() {
    let data = b"tamper target".to_vec();
    let (mut ct, bundle) = encrypt_media(&data, "f", "t").unwrap();
    ct[0] ^= 1;
    match decrypt_media(&ct, &bundle) {
        Err(ProtocolError::AuthenticationFailed) => {}
        other => panic!("expected AuthenticationFailed, got {:?}", other),
    }
}

#[test]
fn media_digest_mismatch_detected() {
    let data = b"first file".to_vec();
    let other = b"second file".to_vec();
    let (ct, bundle) = encrypt_media(&data, "f", "t").unwrap();
    let (_ct2, bundle2) = encrypt_media(&other, "f", "t").unwrap();
    let confused = MediaKeyBundle {
        key: bundle.key.clone(),
        nonce: bundle.nonce.clone(),
        digest: bundle2.digest.clone(),
        file_name: bundle.file_name.clone(),
        file_type: bundle.file_type.clone(),
        is_chunked: false,
        chunk_size: None,
    };
    match decrypt_media(&ct, &confused) {
        Err(ProtocolError::DigestMismatch) => {}
        other => panic!("expected DigestMismatch, got {:?}", other),
    }
}

#[test]
fn media_chunked_bundle_rejected_by_single_shot() {
    let data = b"x".to_vec();
    let (ct, bundle) = encrypt_media(&data, "f", "t").unwrap();
    let chunked = MediaKeyBundle { is_chunked: true, chunk_size: Some(4), ..bundle };
    match decrypt_media(&ct, &chunked) {
        Err(ProtocolError::MalformedBundle) => {}
        other => panic!("expected MalformedBundle, got {:?}", other),
    }
}

#[test]
fn media_bad_base64_is_encoding_error() {
    let data = b"x".to_vec();
    let (ct, bundle) = encrypt_media(&data, "f", "t").unwrap();
    let broken = MediaKeyBundle { key: String::from("!!!not base64!!!"), ..bundle };
    match decrypt_media(&ct, &broken) {
        Err(ProtocolError::EncodingError) => {}
        other => panic!("expected EncodingError, got {:?}", other),
    }
}

#[test]
fn chunk_encrypt_is_deterministic() {
    let key = [7u8; 32];
    let base_nonce = [9u8; 12];
    let data = b"chunk number three".to_vec();
    let a = encrypt_media_chunk(&key, &base_nonce, 3, &data).unwrap();
    let b = encrypt_media_chunk(&key, &base_nonce, 3, &data).unwrap();
    assert_eq!(a, b);
}

#[test]
fn chunk_round_trip_and_wrong_index_fails() {
    let key = [1u8; 32];
    let base_nonce = [2u8; 12];
    let data = b"streamed chunk".to_vec();
    let ct = encrypt_media_chunk(&key, &base_nonce, 3, &data).unwrap();
    let pt = decrypt_media_chunk(&key, &base_nonce, 3, &ct).unwrap();
    assert_eq!(pt, data);
    match decrypt_media_chunk(&key, &base_nonce, 4, &ct) {
        Err(ProtocolError::AuthenticationFailed) => {}
        other => panic!("expected AuthenticationFailed, got {:?}", other),
    }
}

#[test]
fn chunk_invalid_key_material() {
    let short_key = [1u8; 16];
    let base_nonce = [2u8; 12];
    match encrypt_media_chunk(&short_key, &base_nonce, 0, b"d") {
        Err(ProtocolError::InvalidKeyMaterial) => {}
        other => panic!("expected InvalidKeyMaterial, got {:?}", other),
    }
    let key = [1u8; 32];
    let short_nonce = [2u8; 4];
    match encrypt_media_chunk(&key, &short_nonce, 0, b"d") {
        Err(ProtocolError::InvalidKeyMaterial) => {}
        other => panic!("expected InvalidKeyMaterial, got {:?}", other),
    }
}

#[test]
fn chunk_base64_front_door_round_trip() {
    let key_b64 = base64::engine::general_purpose::STANDARD.encode([5u8; 32]);
    let nonce_b64 = base64::engine::general_purpose::STANDARD.encode([6u8; 12]);
    let data = b"front door chunk".to_vec();
    let ct = protocol_encrypt_media_chunk(&key_b64, &nonce_b64, 2, &data).unwrap();
    let pt = protocol_decrypt_media_chunk(&key_b64, &nonce_b64, 2, &ct).unwrap();
    assert_eq!(pt, data);
    match protocol_encrypt_media_chunk("%%%", &nonce_b64, 2, &data) {
        Err(ProtocolError::EncodingError) => {}
        other => panic!("expected EncodingError, got {:?}", other),
    }
}
