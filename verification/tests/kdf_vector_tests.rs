use ghostcrypt_crypto::kdf::{derive_chain_and_message_key, HKDF_MAX_OUTPUT};
use ghostcrypt_crypto::ratchet::dh_ratchet::dh_ratchet_step;
use ghostcrypt_crypto::ratchet::ChainKey;
use ghostcrypt_crypto::CryptoError;
use hmac::Mac;

fn hex(s: &str) -> Vec<u8> {
    (0..s.len())
        .step_by(2)
        .map(|i| u8::from_str_radix(&s[i..i + 2], 16).unwrap())
        .collect()
}

fn hmac_tag(key: &[u8], data: &[u8]) -> Vec<u8> {
    let mut mac = hmac::Hmac::<sha2::Sha256>::new_from_slice(key).unwrap();
    mac.update(data);
    mac.finalize().into_bytes().to_vec()
}

fn hkdf(ikm: &[u8], salt: &[u8], info: &[u8], len: usize) -> Vec<u8> {
    let mut out = vec![0u8; len];
    hkdf::Hkdf::<sha2::Sha256>::new(Some(salt), ikm)
        .expand(info, &mut out)
        .unwrap();
    out
}

#[test]
fn test_hkdf_rfc5869_first_vector() {
    let ikm = vec![0x0bu8; 22];
    let salt = hex("000102030405060708090a0b0c");
    let info = hex("f0f1f2f3f4f5f6f7f8f9");
    let okm = ghostcrypt_crypto::kdf::derive(&ikm, &salt, &info, 42).unwrap();
    assert_eq!(
        okm,
        hex("3cb25f25faacd57a90434f64d0362f2a2d2d0a90cf1a5a4c5db02d56ecc4c5bf34007208d5b887185865")
    );
}

#[test]
fn test_hkdf_longest_output_accepted() {
    let okm = ghostcrypt_crypto::kdf::derive(b"ikm", b"salt", b"info", HKDF_MAX_OUTPUT).unwrap();
    assert_eq!(okm.len(), 8160);
}

#[test]
fn test_hkdf_too_long_output_refused() {
    let err = ghostcrypt_crypto::kdf::derive(b"ikm", b"salt", b"info", HKDF_MAX_OUTPUT + 1).unwrap_err();
    assert!(matches!(err, CryptoError::KeyGeneration(_)));
    assert_eq!(
        err.to_string(),
        "Key generation failed: HKDF expand failed: invalid number of blocks, too large output"
    );
}

#[test]
fn test_hkdf_zero_length() {
    assert_eq!(ghostcrypt_crypto::kdf::derive(b"ikm", b"salt", b"info", 0).unwrap(), Vec::<u8>::new());
}

#[test]
fn test_chain_step_is_hmac_with_one_and_two() {
    let chain_key = [0x42u8; 32];
    let (next, message) = derive_chain_and_message_key(&chain_key).unwrap();
    assert_eq!(next, hmac_tag(&chain_key, &[1u8]));
    assert_eq!(message, hmac_tag(&chain_key, &[2u8]));
    assert_ne!(next, chain_key.to_vec());
}

#[test]
fn test_chain_key_advance_steps_the_chain() {
    let start = vec![7u8; 32];
    let mut chain = ChainKey::new(start.clone(), 0);
    let first = chain.advance().unwrap();
    assert_eq!(first, hmac_tag(&start, &[2u8]));
    assert_eq!(chain.index(), 1);
    let second = chain.advance().unwrap();
    let next_key = hmac_tag(&start, &[1u8]);
    assert_eq!(second, hmac_tag(&next_key, &[2u8]));
    assert_eq!(chain.index(), 2);
}

#[test]
fn test_ratchet_step_splits_hkdf_output() {
    let root = [1u8; 32];
    let dh_output = [2u8; 32];
    let (new_root, chain) = dh_ratchet_step(&root, &dh_output).unwrap();
    let expected = hkdf(&dh_output, &root, b"GhostCrypt_Ratchet", 64);
    assert_eq!(new_root, expected[..32].to_vec());
    assert_eq!(chain, expected[32..].to_vec());
}
