use ghostcrypt_crypto::api::map_err;
use ghostcrypt_crypto::CryptoError;

#[test]
fn test_error_texts_by_kind() {
    let cases = vec![
        (CryptoError::KeyGeneration("a".into()), "Key generation failed: a"),
        (CryptoError::KeyExchange("b".into()), "Key exchange failed: b"),
        (CryptoError::Encryption("c".into()), "Encryption failed: c"),
        (CryptoError::Decryption("d".into()), "Decryption failed: d"),
        (CryptoError::InvalidSignature("e".into()), "Invalid signature: e"),
        (CryptoError::InvalidKey("f".into()), "Invalid key: f"),
        (CryptoError::Ratchet("g".into()), "Ratchet error: g"),
        (CryptoError::Serialization("h".into()), "Serialization error: h"),
        (CryptoError::Mls("i".into()), "MLS error: i"),
        (CryptoError::MlsGroupNotFound("j".into()), "MLS group not found: j"),
    ];
    for (error, text) in cases {
        assert_eq!(error.to_string(), text);
        assert_eq!(map_err(error), text);
    }
}
