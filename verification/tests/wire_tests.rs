use base64::{engine::general_purpose::STANDARD as BASE64, Engine as _};
use ghostcrypt_crypto::identity::IdentityKeyPair;
use ghostcrypt_crypto::wire::{decode_key_field, parse_initiator_keys, parse_message_header, parse_pre_key_bundle};

fn bundle_json(vk: &[u8], opk: Option<&str>) -> String {
    let opk_text = match opk {
        Some(t) => format!("\"{}\"", t),
        None => "null".to_string(),
    };
    format!(
        "{{\"identity_key\":\"{}\",\"signed_pre_key\":\"{}\",\"signature\":\"{}\",\"identity_verifying_key\":\"{}\",\"one_time_pre_key\":{}}}",
        BASE64.encode([1u8; 32]),
        BASE64.encode([2u8; 32]),
        BASE64.encode([3u8; 64]),
        BASE64.encode(vk),
        opk_text
    )
}

#[test]
fn test_parse_pre_key_bundle_reads_keys() {
    let vk = IdentityKeyPair::generate().verifying_key().to_bytes();
    let opk = BASE64.encode([4u8; 32]);
    let b = parse_pre_key_bundle(bundle_json(&vk, Some(&opk)).as_bytes()).ok().unwrap();
    assert_eq!(b.identity_key.as_bytes(), &[1u8; 32]);
    assert_eq!(b.signed_pre_key.as_bytes(), &[2u8; 32]);
    assert_eq!(b.signature, vec![3u8; 64]);
    assert_eq!(b.identity_verifying_key.to_bytes(), vk);
    assert_eq!(b.one_time_pre_key.unwrap().as_bytes(), &[4u8; 32]);
    let b = parse_pre_key_bundle(bundle_json(&vk, None).as_bytes()).ok().unwrap();
    assert!(b.one_time_pre_key.is_none());
}

#[test]
fn test_parse_pre_key_bundle_refusals() {
    let vk = IdentityKeyPair::generate().verifying_key().to_bytes();
    let e = parse_pre_key_bundle(b"not json").err().unwrap();
    assert!(e.starts_with("Invalid bundle JSON: "));
    let e = parse_pre_key_bundle(b"{\"identity_key\":\"AAAA\"}").err().unwrap();
    assert_eq!(e, "bundle.signed_pre_key missing or not a string");
    let text = bundle_json(&vk, None).replace(&BASE64.encode([2u8; 32]), "%%%");
    let e = parse_pre_key_bundle(text.as_bytes()).err().unwrap();
    assert!(e.starts_with("Invalid signed_pre_key base64: "));
    let text = bundle_json(&vk, None).replace(&BASE64.encode([1u8; 32]), &BASE64.encode([1u8; 31]));
    let e = parse_pre_key_bundle(text.as_bytes()).err().unwrap();
    assert_eq!(e, "identity_key must be 32 bytes");
    let short = BASE64.encode([4u8; 16]);
    let e = parse_pre_key_bundle(bundle_json(&vk, Some(&short)).as_bytes()).err().unwrap();
    assert_eq!(e, "one_time_pre_key must be 32 bytes");
    let mut bad = [0u8; 32];
    bad[0] = 2;
    bad[31] = 0x80;
    if ed25519_dalek::VerifyingKey::from_bytes(&bad).is_err() {
        let e = parse_pre_key_bundle(bundle_json(&bad, None).as_bytes()).err().unwrap();
        assert_eq!(e, "Invalid identity_verifying_key: signature error: Cannot decompress Edwards point");
    }
}

#[test]
fn test_parse_message_header() {
    let text = format!(
        "{{\"dh_public_key\":\"{}\",\"message_number\":4294967301,\"previous_chain_length\":2}}",
        BASE64.encode([9u8; 32])
    );
    let h = parse_message_header(text.as_bytes()).unwrap();
    assert_eq!(h.dh_public_key, vec![9u8; 32]);
    assert_eq!(h.message_number, 5);
    assert_eq!(h.previous_chain_length, 2);
    let e = parse_message_header(b"{\"dh_public_key\":\"AAAA\"}").err().unwrap();
    assert_eq!(e, "header.message_number missing or not a number");
    let e = parse_message_header(b"{\"message_number\":1}").err().unwrap();
    assert_eq!(e, "header.dh_public_key missing or not a string");
    let e = parse_message_header(b"[").err().unwrap();
    assert!(e.starts_with("Invalid header JSON: "));
}

#[test]
fn test_decode_key_fields() {
    assert_eq!(decode_key_field("k", BASE64.encode([7u8; 32]).as_bytes()).unwrap(), [7u8; 32]);
    assert_eq!(decode_key_field("k", BASE64.encode([7u8; 3]).as_bytes()).err().unwrap(), "k must be 32 bytes");
    assert!(decode_key_field("k", b"@@").err().unwrap().starts_with("Invalid k base64: "));
    let (a, e) = parse_initiator_keys(BASE64.encode([5u8; 32]).as_bytes(), BASE64.encode([6u8; 32]).as_bytes()).unwrap();
    assert_eq!(a.as_bytes(), &[5u8; 32]);
    assert_eq!(e.as_bytes(), &[6u8; 32]);
    let err = parse_initiator_keys(BASE64.encode([5u8; 31]).as_bytes(), b"!!").err().unwrap();
    assert!(err.starts_with("Invalid alice_ephemeral_key base64: "));
}
