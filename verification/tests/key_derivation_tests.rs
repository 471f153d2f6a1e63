use ed25519_dalek::Signer;
use ghostcrypt_crypto::api::{MessageHeaderData, SessionStore};
use ghostcrypt_crypto::curve::{public_key_of, PublicKey, VerifyingKey};
use ghostcrypt_crypto::identity::{IdentityKeyPair, SignedPreKey};
use ghostcrypt_crypto::ratchet::state::DecryptStage;
use ghostcrypt_crypto::ratchet::{MessageHeader, Session};

#[test]
fn test_imported_identity_public_keys_match_dalek() {
    let secret = [0x31u8; 32];
    let signing = [0x47u8; 32];
    let kp = IdentityKeyPair::from_bytes(&secret, &signing).unwrap();
    let x_public = x25519_dalek::PublicKey::from(&x25519_dalek::StaticSecret::from(secret));
    assert_eq!(kp.public_key().as_bytes(), x_public.as_bytes());
    let ed_public = ed25519_dalek::SigningKey::from_bytes(&signing).verifying_key();
    assert_eq!(kp.verifying_key().as_bytes(), ed_public.as_bytes());
    assert_eq!(public_key_of(&secret).as_bytes(), x_public.as_bytes());
}

#[test]
fn test_signature_matches_dalek_and_verifies() {
    let signing = [0x09u8; 32];
    let kp = IdentityKeyPair::from_bytes(&[1u8; 32], &signing).unwrap();
    let sig = kp.sign(b"message");
    let expected = ed25519_dalek::SigningKey::from_bytes(&signing).sign(b"message");
    assert_eq!(sig, expected.to_bytes().to_vec());
    assert!(IdentityKeyPair::verify(&kp.verifying_key(), b"message", &sig));
    assert!(!IdentityKeyPair::verify(&kp.verifying_key(), b"other", &sig));
    assert!(!IdentityKeyPair::verify(&kp.verifying_key(), b"message", &sig[..63]));
}

#[test]
fn test_verifying_key_decoding() {
    let good = ed25519_dalek::SigningKey::from_bytes(&[5u8; 32]).verifying_key().to_bytes();
    assert_eq!(VerifyingKey::from_bytes(&good).unwrap().to_bytes(), good);
    let mut bad = [0u8; 32];
    bad[0] = 2;
    bad[31] = 0x80;
    assert_eq!(
        VerifyingKey::from_bytes(&bad).is_some(),
        ed25519_dalek::VerifyingKey::from_bytes(&bad).is_ok()
    );
}

#[test]
fn test_decrypt_stage_check() {
    let bob_identity = IdentityKeyPair::generate();
    let spk = SignedPreKey::generate(&bob_identity);
    let mut alice = Session::init_alice(&[1u8; 32], spk.public_key().clone());
    let mut bob = Session::init_bob(&[1u8; 32], &spk);
    let (header, encrypted) = alice.encrypt(b"x").unwrap();
    let (header2, encrypted2) = alice.encrypt(b"y").unwrap();
    assert_eq!(bob.decrypt_stage(&header), DecryptStage::Opens);
    let at_limit = MessageHeader::new(&header.to_public_key(), u32::MAX, 0);
    assert_eq!(bob.decrypt_stage(&at_limit), DecryptStage::TooManySkipped);
    let far = MessageHeader::new(&header.to_public_key(), 500, 0);
    assert_eq!(bob.decrypt_stage(&far), DecryptStage::TooManySkipped);
    assert_eq!(bob.decrypt(&header2, &encrypted2).unwrap(), b"y".to_vec());
    assert_eq!(bob.decrypt_stage(&header), DecryptStage::Opens);
    assert_eq!(bob.decrypt(&header, &encrypted).unwrap(), b"x".to_vec());
    let old_key = MessageHeader::new(&PublicKey::from_bytes([4u8; 32]), 0, 0);
    assert_eq!(bob.decrypt_stage(&old_key), DecryptStage::Opens);
    assert!(!alice.sending_counter_exhausted());
    let unopened = ghostcrypt_crypto::aead::Encrypted { nonce: vec![], ciphertext: vec![] };
    let refused = bob.decrypt(&far, &unopened);
    assert!(matches!(refused, Err(ghostcrypt_crypto::error::CryptoError::Ratchet(ref m)) if m == "Too many skipped messages"));
}

#[test]
fn test_store_queries() {
    let mut store = SessionStore::new();
    let handle = ghostcrypt_crypto::api::create_session_initiator(&mut store, vec![2u8; 32], vec![3u8; 32]).unwrap();
    assert!(store.has_session(handle));
    assert!(!store.has_session(handle + 1));
    assert!(!store.sending_counter_exhausted(handle));
    let header = MessageHeaderData { dh_public_key: vec![0u8; 32], message_number: 3, previous_chain_length: 0 };
    assert_eq!(store.decrypt_stage(handle, &header), Some(DecryptStage::Opens));
    let header = MessageHeaderData { dh_public_key: vec![0u8; 32], message_number: u32::MAX, previous_chain_length: 0 };
    assert_eq!(store.decrypt_stage(handle, &header), Some(DecryptStage::TooManySkipped));
    assert_eq!(store.decrypt_stage(handle + 1, &header), None);
    let header = MessageHeaderData { dh_public_key: vec![0u8; 32], message_number: 101, previous_chain_length: 0 };
    assert_eq!(store.decrypt_stage(handle, &header), Some(DecryptStage::TooManySkipped));
    let header = MessageHeaderData { dh_public_key: vec![0u8; 32], message_number: 100, previous_chain_length: 0 };
    assert_eq!(store.decrypt_stage(handle, &header), Some(DecryptStage::Opens));
}
