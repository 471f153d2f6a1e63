use ghostcrypt_crypto::api::{
    aes_decrypt, aes_encrypt, create_session_initiator, create_session_responder, destroy_session,
    generate_identity_keypair, generate_one_time_pre_keys, generate_signed_pre_key, session_decrypt,
    session_encrypt, x3dh_initiate, x3dh_respond, SessionStore,
};

#[test]
fn test_store_conversation_through_handles() {
    let alice = generate_identity_keypair();
    let bob = generate_identity_keypair();
    let spk = generate_signed_pre_key(bob.identity_secret.clone(), bob.signing_secret.clone()).unwrap();
    let opks = generate_one_time_pre_keys(2);
    assert_eq!(opks.len(), 2);
    assert_eq!(opks[0].id, 0);
    assert_eq!(opks[1].id, 1);

    let init = x3dh_initiate(
        alice.identity_secret.clone(),
        alice.signing_secret.clone(),
        bob.identity_public.clone(),
        bob.signing_public.clone(),
        spk.public_key.clone(),
        spk.signature.clone(),
        None,
    )
    .unwrap();
    let resp = x3dh_respond(
        bob.identity_secret.clone(),
        bob.signing_secret.clone(),
        spk.secret.clone(),
        spk.public_key.clone(),
        spk.signature.clone(),
        alice.identity_public.clone(),
        init.ephemeral_public.clone(),
    )
    .unwrap();
    assert_eq!(init.shared_secret, resp.shared_secret);

    let mut store = SessionStore::new();
    let a = create_session_initiator(&mut store, init.shared_secret.clone(), spk.public_key.clone()).unwrap();
    let b = create_session_responder(
        &mut store,
        resp.shared_secret.clone(),
        spk.secret.clone(),
        spk.public_key.clone(),
        spk.signature.clone(),
    )
    .unwrap();
    assert_eq!(a, 1);
    assert_eq!(b, 2);

    let sent = session_encrypt(&mut store, a, b"over the handles".to_vec()).unwrap();
    assert_eq!(sent.nonce.len(), 12);
    let got = session_decrypt(&mut store, b, sent.header, sent.ciphertext, sent.nonce).unwrap();
    assert_eq!(got, b"over the handles".to_vec());

    assert!(destroy_session(&mut store, a));
    assert!(!destroy_session(&mut store, a));
    let err = session_encrypt(&mut store, a, b"gone".to_vec()).err().unwrap();
    assert_eq!(err, "No session with handle 1");
}

#[test]
fn test_initiator_session_needs_32_byte_key() {
    let mut store = SessionStore::new();
    let err = create_session_initiator(&mut store, vec![1u8; 32], vec![2u8; 31]).unwrap_err();
    assert_eq!(err, "Expected 32 bytes for public key, got 31");
    let ok = create_session_initiator(&mut store, vec![1u8; 32], vec![2u8; 32]).unwrap();
    assert_eq!(ok, 1);
}

#[test]
fn test_responder_session_key_checks() {
    let mut store = SessionStore::new();
    let err = create_session_responder(&mut store, vec![1u8; 32], vec![0u8; 10], vec![0u8; 32], vec![0u8; 64])
        .unwrap_err();
    assert_eq!(err, "Invalid key: secret must be 32 bytes, got 10");
    let err = create_session_responder(&mut store, vec![1u8; 32], vec![0u8; 32], vec![0u8; 32], vec![0u8; 63])
        .unwrap_err();
    assert_eq!(err, "Invalid key: signature must be 64 bytes, got 63");
}

#[test]
fn test_signed_pre_key_needs_32_byte_secrets() {
    let err = generate_signed_pre_key(vec![0u8; 31], vec![0u8; 32]).err().unwrap();
    assert_eq!(err, "Invalid key: identity secret must be 32 bytes, got 31");
    let err = generate_signed_pre_key(vec![0u8; 32], vec![0u8; 33]).err().unwrap();
    assert_eq!(err, "Invalid key: signing secret must be 32 bytes, got 33");
}

#[test]
fn test_aes_roundtrip_and_key_length() {
    let key = vec![0x55u8; 32];
    let sealed = aes_encrypt(key.clone(), b"plain".to_vec()).unwrap();
    assert_eq!(sealed.nonce.len(), 12);
    assert_eq!(sealed.ciphertext.len(), 5 + 16);
    let opened = aes_decrypt(key.clone(), sealed.ciphertext.clone(), sealed.nonce.clone()).unwrap();
    assert_eq!(opened, b"plain".to_vec());
    assert_eq!(aes_encrypt(vec![0u8; 16], b"x".to_vec()).err().unwrap(), "Key must be 32 bytes, got 16");
    assert_eq!(aes_decrypt(vec![0u8; 31], vec![], vec![0u8; 12]).unwrap_err(), "Key must be 32 bytes, got 31");
    let mut other = key.clone();
    other[0] ^= 1;
    assert_eq!(
        aes_decrypt(other, sealed.ciphertext, sealed.nonce).unwrap_err(),
        "Decryption failed: Decryption failed: aead::Error"
    );
}

#[test]
fn test_x3dh_initiate_rejects_short_keys() {
    let alice = generate_identity_keypair();
    let err = x3dh_initiate(
        alice.identity_secret.clone(),
        alice.signing_secret.clone(),
        vec![0u8; 5],
        vec![0u8; 32],
        vec![0u8; 32],
        vec![0u8; 64],
        None,
    )
    .err()
    .unwrap();
    assert_eq!(err, "Expected 32 bytes for public key, got 5");
}

#[test]
fn test_session_decrypt_refuses_malformed_inputs() {
    let mut store = SessionStore::new();
    let a = create_session_initiator(&mut store, vec![7u8; 32], vec![9u8; 32]).unwrap();
    let short_key = ghostcrypt_crypto::api::MessageHeaderData {
        dh_public_key: vec![1u8; 31],
        message_number: 0,
        previous_chain_length: 0,
    };
    assert_eq!(
        session_decrypt(&mut store, a, short_key, vec![0u8; 20], vec![0u8; 12]),
        Err("Expected 32 bytes for public key, got 31".to_string())
    );
    let header = ghostcrypt_crypto::api::MessageHeaderData {
        dh_public_key: vec![1u8; 32],
        message_number: 0,
        previous_chain_length: 0,
    };
    assert_eq!(
        session_decrypt(&mut store, a, header, vec![0u8; 20], vec![0u8; 11]),
        Err("Nonce must be 12 bytes, got 11".to_string())
    );
    let header = ghostcrypt_crypto::api::MessageHeaderData {
        dh_public_key: vec![1u8; 32],
        message_number: 0,
        previous_chain_length: 0,
    };
    assert_eq!(
        session_decrypt(&mut store, a, header, vec![0u8; 20], vec![0u8; 12]),
        Err("Decryption failed: Decryption failed: aead::Error".to_string())
    );
}

#[test]
fn test_aes_decrypt_refuses_short_nonce() {
    assert_eq!(
        aes_decrypt(vec![3u8; 32], vec![0u8; 20], vec![0u8; 11]),
        Err("Nonce must be 12 bytes, got 11".to_string())
    );
    let enc = aes_encrypt(vec![3u8; 32], b"abc".to_vec()).unwrap();
    assert_eq!(enc.ciphertext.len(), 3 + 16);
}
