use ghostcrypt_crypto::aead::Encrypted;
use ghostcrypt_crypto::identity::{IdentityKeyPair, SignedPreKey};
use ghostcrypt_crypto::ratchet::{MessageHeader, Session};
use ghostcrypt_crypto::CryptoError;

fn fixed_pair(secret: &[u8]) -> (Session, Session, SignedPreKey) {
    let bob_identity = IdentityKeyPair::generate();
    let bob_spk = SignedPreKey::generate(&bob_identity);
    let alice = Session::init_alice_with_secret(secret, bob_spk.public_key().clone(), [9u8; 32]);
    let bob = Session::init_bob(secret, &bob_spk);
    (alice, bob, bob_spk)
}

#[test]
fn test_fixed_ratchet_secrets_agree_both_ways() {
    let (mut alice, mut bob, _) = fixed_pair(&[3u8; 32]);
    let (h1, c1) = alice.encrypt(b"first").unwrap();
    assert_eq!(h1.message_number, 0);
    assert_eq!(h1.previous_chain_length, 0);
    let p1 = bob.decrypt_with_ratchet_secret(&h1, &c1, [11u8; 32]).unwrap();
    assert_eq!(p1, b"first".to_vec());
    let (h2, c2) = bob.encrypt(b"reply").unwrap();
    let p2 = alice.decrypt_with_ratchet_secret(&h2, &c2, [13u8; 32]).unwrap();
    assert_eq!(p2, b"reply".to_vec());
    let (h3, c3) = alice.encrypt(b"again").unwrap();
    assert_eq!(h3.previous_chain_length, 1);
    assert_eq!(bob.decrypt(&h3, &c3).unwrap(), b"again".to_vec());
}

#[test]
fn test_out_of_order_within_a_chain() {
    let (mut alice, mut bob, _) = fixed_pair(&[4u8; 32]);
    let m0 = alice.encrypt(b"zero").unwrap();
    let m1 = alice.encrypt(b"one").unwrap();
    let m2 = alice.encrypt(b"two").unwrap();
    assert_eq!(bob.decrypt(&m2.0, &m2.1).unwrap(), b"two".to_vec());
    assert_eq!(bob.decrypt(&m0.0, &m0.1).unwrap(), b"zero".to_vec());
    assert_eq!(bob.decrypt(&m1.0, &m1.1).unwrap(), b"one".to_vec());
}

#[test]
fn test_skipping_one_hundred_messages_is_allowed() {
    let (mut alice, mut bob, _) = fixed_pair(&[5u8; 32]);
    let mut last = None;
    for i in 0..101u32 {
        let m = alice.encrypt(format!("m{i}").as_bytes()).unwrap();
        last = Some(m);
    }
    let (h, c) = last.unwrap();
    assert_eq!(h.message_number, 100);
    assert_eq!(bob.decrypt(&h, &c).unwrap(), b"m100".to_vec());
}

#[test]
fn test_skipping_more_than_one_hundred_messages_is_refused() {
    let (mut alice, mut bob, _) = fixed_pair(&[6u8; 32]);
    let mut last = None;
    for i in 0..102u32 {
        let m = alice.encrypt(format!("m{i}").as_bytes()).unwrap();
        last = Some(m);
    }
    let (h, c) = last.unwrap();
    assert_eq!(h.message_number, 101);
    let err = bob.decrypt(&h, &c).unwrap_err();
    assert!(matches!(err, CryptoError::Ratchet(_)));
    assert_eq!(err.to_string(), "Ratchet error: Too many skipped messages");
}

#[test]
fn test_responder_cannot_send_first() {
    let (_, mut bob, _) = fixed_pair(&[7u8; 32]);
    let err = bob.encrypt(b"too early").unwrap_err();
    assert_eq!(err.to_string(), "Ratchet error: No sending chain established");
}

#[test]
fn test_initiator_without_receiving_chain() {
    let (mut alice, _, bob_spk) = fixed_pair(&[8u8; 32]);
    let header = MessageHeader::new(bob_spk.public_key(), 0, 0);
    let encrypted = Encrypted { nonce: vec![0u8; 12], ciphertext: vec![0u8; 16] };
    let err = alice.decrypt(&header, &encrypted).unwrap_err();
    assert_eq!(err.to_string(), "Ratchet error: No receiving chain established");
}

#[test]
fn test_tampered_ciphertext_is_refused() {
    let (mut alice, mut bob, _) = fixed_pair(&[10u8; 32]);
    let (h, mut c) = alice.encrypt(b"integrity").unwrap();
    c.ciphertext[0] ^= 1;
    let err = bob.decrypt(&h, &c).unwrap_err();
    assert_eq!(err.to_string(), "Decryption failed: Decryption failed: aead::Error");
}

#[test]
fn test_header_is_authenticated() {
    let (mut alice, mut bob, _) = fixed_pair(&[12u8; 32]);
    let (mut h, c) = alice.encrypt(b"bound to header").unwrap();
    h.previous_chain_length = 5;
    assert!(bob.decrypt(&h, &c).is_err());
}

#[test]
fn test_previous_chain_message_after_ratchet_step() {
    let (mut alice, mut bob, _) = fixed_pair(&[5u8; 32]);
    let (h1, c1) = alice.encrypt(b"one").unwrap();
    assert_eq!(bob.decrypt(&h1, &c1).unwrap(), b"one".to_vec());
    let (h2, c2) = alice.encrypt(b"two, late").unwrap();
    let (hb, cb) = bob.encrypt(b"reply").unwrap();
    assert_eq!(alice.decrypt(&hb, &cb).unwrap(), b"reply".to_vec());
    let (h3, c3) = alice.encrypt(b"three").unwrap();
    assert_eq!(h3.previous_chain_length, 2);
    assert_ne!(h3.dh_public_key, h2.dh_public_key);
    assert_eq!(bob.decrypt(&h3, &c3).unwrap(), b"three".to_vec());
    assert_eq!(bob.decrypt(&h2, &c2).unwrap(), b"two, late".to_vec());
}

#[test]
fn test_message_decrypts_only_once() {
    let (mut alice, mut bob, _) = fixed_pair(&[6u8; 32]);
    let (h1, c1) = alice.encrypt(b"once").unwrap();
    let (h2, c2) = alice.encrypt(b"twice").unwrap();
    assert_eq!(bob.decrypt(&h2, &c2).unwrap(), b"twice".to_vec());
    assert!(bob.decrypt(&h2, &c2).is_err());
    assert_eq!(bob.decrypt(&h1, &c1).unwrap(), b"once".to_vec());
    assert!(bob.decrypt(&h1, &c1).is_err());
}
