use ghostcrypt_crypto::curve::PublicKey;
use ghostcrypt_crypto::ratchet::MessageHeader;

#[test]
fn test_header_bytes_are_compact_json() {
    let header = MessageHeader {
        dh_public_key: vec![1, 2, 255],
        message_number: 7,
        previous_chain_length: 0,
    };
    assert_eq!(
        header.to_bytes(),
        br#"{"dh_public_key":[1,2,255],"message_number":7,"previous_chain_length":0}"#.to_vec()
    );
}

#[test]
fn test_header_bytes_match_serde_json() {
    let key: Vec<u8> = (0u8..32).map(|i| i.wrapping_mul(37)).collect();
    let header = MessageHeader::new(&PublicKey::from_bytes(key.clone().try_into().unwrap()), 4294967295, 100);
    let mut object = serde_json::Map::new();
    object.insert(
        "dh_public_key".to_string(),
        serde_json::Value::Array(key.iter().map(|b| serde_json::Value::from(*b)).collect()),
    );
    object.insert("message_number".to_string(), serde_json::Value::from(4294967295u32));
    object.insert("previous_chain_length".to_string(), serde_json::Value::from(100u32));
    let expected = serde_json::to_vec(&serde_json::Value::Object(object)).unwrap();
    assert_eq!(header.to_bytes(), expected);
}

#[test]
fn test_header_empty_key() {
    let header = MessageHeader {
        dh_public_key: vec![],
        message_number: 0,
        previous_chain_length: 12,
    };
    assert_eq!(
        header.to_bytes(),
        br#"{"dh_public_key":[],"message_number":0,"previous_chain_length":12}"#.to_vec()
    );
}

#[test]
fn test_header_public_key_roundtrip() {
    let header = MessageHeader::new(&PublicKey::from_bytes([9u8; 32]), 1, 2);
    assert_eq!(header.to_public_key().as_bytes(), &[9u8; 32]);
    assert_eq!(header.message_number, 1);
    assert_eq!(header.previous_chain_length, 2);
}
