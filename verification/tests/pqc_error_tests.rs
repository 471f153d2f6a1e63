use ghostcrypt_crypto::pqc::hybrid_kem::{decapsulate, encapsulate, hybrid_shared_secret, MLKEM_PUBLIC_KEY_LEN};

#[test]
fn test_encapsulate_length_text() {
    let err = encapsulate(&[0u8; 32]).err().unwrap();
    assert_eq!(err.to_string(), "Invalid key: ML-KEM public key must be 1184 bytes, got 32");
    assert!(encapsulate(&vec![0u8; MLKEM_PUBLIC_KEY_LEN + 1]).is_err());
}

#[test]
fn test_decapsulate_length_texts() {
    let err = decapsulate(&[0u8; 10], &[0u8; 1088]).err().unwrap();
    assert_eq!(err.to_string(), "Invalid key: ML-KEM secret key must be 2400 bytes, got 10");
    let err = decapsulate(&vec![0u8; 2400], &[0u8; 7]).err().unwrap();
    assert_eq!(err.to_string(), "Invalid key: ML-KEM ciphertext must be 1088 bytes, got 7");
}

#[test]
fn test_hybrid_secret_is_hkdf_of_concatenation() {
    let x = [0x11u8; 32];
    let m = [0x22u8; 32];
    let mut ikm = x.to_vec();
    ikm.extend_from_slice(&m);
    let mut expected = [0u8; 32];
    hkdf::Hkdf::<sha2::Sha256>::new(Some(b"GhostCrypt_Hybrid_PQ"), &ikm)
        .expand(b"hybrid_shared_secret", &mut expected)
        .unwrap();
    assert_eq!(hybrid_shared_secret(&x, &m).unwrap(), expected.to_vec());
}
