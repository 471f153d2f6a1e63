use ghostcrypt_crypto::api::{
    mls_add_member, mls_create_group, mls_decrypt_message, mls_destroy_state, mls_encrypt_message,
    mls_generate_key_package, mls_process_commit, mls_process_welcome, mls_remove_member, MlsStateStore,
};
use ghostcrypt_crypto::mls;
use ghostcrypt_crypto::CryptoError;
use base64::Engine;

#[test]
fn test_mls_group_through_handles() {
    let mut store = MlsStateStore::new();
    let alice = mls_create_group(&mut store, b"alice".to_vec()).unwrap();
    assert_eq!(alice.handle, 1);
    assert_eq!(alice.epoch, 0);
    let bob_kp = mls_generate_key_package(b"bob".to_vec()).unwrap();
    let added = mls_add_member(&mut store, alice.handle, bob_kp.key_package.clone()).unwrap();
    assert_eq!(added.handle, 2);
    assert_eq!(added.epoch, 1);
    let bob = mls_process_welcome(&mut store, added.welcome.clone(), bob_kp.secret_bundle.clone()).unwrap();
    assert_eq!(bob.handle, 3);
    assert_eq!(bob.epoch, 1);
    assert_eq!(bob.group_id, alice.group_id);

    let sent = mls_encrypt_message(&mut store, added.handle, b"to the group".to_vec()).unwrap();
    assert_eq!(sent.handle, 4);
    let got = mls_decrypt_message(&mut store, bob.handle, sent.mls_ciphertext).unwrap();
    assert_eq!(got.handle, 5);
    assert_eq!(got.plaintext, b"to the group".to_vec());

    let removed = mls_remove_member(&mut store, added.handle, 1).unwrap();
    assert_eq!(removed.epoch, 2);
    let seen = mls_process_commit(&mut store, got.handle, removed.commit).unwrap();
    assert_eq!(seen.epoch, 2);

    assert!(mls_destroy_state(&mut store, 1));
    assert!(!mls_destroy_state(&mut store, 1));
    let err = mls_encrypt_message(&mut store, 1, b"x".to_vec()).err().unwrap();
    assert_eq!(err, "No MLS group with handle 1");
    let err = mls_add_member(&mut store, 99, vec![]).err().unwrap();
    assert_eq!(err, "No MLS group with handle 99");
}

#[test]
fn test_malformed_group_state_is_refused() {
    let kp = mls::generate_key_package(b"carol").unwrap();
    for junk in [b"".to_vec(), b"{}".to_vec(), b"not json".to_vec(), kp.secret_bundle.clone()] {
        let err = mls::add_member(&junk, &kp.key_package).err().unwrap();
        assert!(matches!(&err, CryptoError::Serialization(m) if m == "not a valid state blob"));
        assert_eq!(err.to_string(), "Serialization error: not a valid state blob");
        assert!(mls::encrypt_message(&junk, b"x").is_err());
        assert!(mls::decrypt_message(&junk, b"x").is_err());
        assert!(mls::process_commit(&junk, b"x").is_err());
        assert!(mls::remove_member(&junk, 0).is_err());
    }
}

#[test]
fn test_malformed_secret_bundle_is_refused() {
    let group = mls::create_group(b"dave").unwrap();
    let err = mls::process_welcome(b"welcome", &group.group_state).err().unwrap();
    assert_eq!(err.to_string(), "Serialization error: secret bundle: not a valid state blob");
}

#[test]
fn test_state_blob_layout() {
    let group = mls::create_group(b"erin").unwrap();
    assert!(group.group_state.starts_with(br#"{"store":{""#));
    let value: serde_json::Value = serde_json::from_slice(&group.group_state).unwrap();
    let object = value.as_object().unwrap();
    assert!(object["store"].as_object().unwrap().len() > 0);
    assert!(object["signer"].as_array().unwrap().len() > 0);
    assert!(object["credential_with_key"].as_array().unwrap().len() > 0);
    assert!(object["group_id"].as_array().unwrap().len() > 0);
    for (k, v) in object["store"].as_object().unwrap() {
        assert!(base64::engine::general_purpose::STANDARD.decode(k).is_ok());
        assert!(base64::engine::general_purpose::STANDARD.decode(v.as_str().unwrap()).is_ok());
    }

    let kp = mls::generate_key_package(b"frank").unwrap();
    let value: serde_json::Value = serde_json::from_slice(&kp.secret_bundle).unwrap();
    let object = value.as_object().unwrap();
    assert!(object.contains_key("store"));
    assert!(!object.contains_key("group_id"));
}

#[test]
fn test_invalid_base64_in_store_is_refused() {
    let group = mls::create_group(b"gina").unwrap();
    let text = String::from_utf8(group.group_state.clone()).unwrap();
    let broken = text.replacen(r#"{"store":{""#, r#"{"store":{"*"#, 1);
    let kp = mls::generate_key_package(b"hank").unwrap();
    let err = mls::add_member(broken.as_bytes(), &kp.key_package).err().unwrap();
    assert_eq!(err.to_string(), "Serialization error: invalid base64 key");
}

#[test]
fn test_process_commit_refuses_application_message() {
    let alice = mls::create_group(b"ivy").unwrap();
    let bob_kp = mls::generate_key_package(b"jack").unwrap();
    let added = mls::add_member(&alice.group_state, &bob_kp.key_package).unwrap();
    let bob = mls::process_welcome(&added.welcome, &bob_kp.secret_bundle).unwrap();
    let sent = mls::encrypt_message(&added.group_state, b"not a commit").unwrap();
    let err = mls::process_commit(&bob.group_state, &sent.mls_ciphertext).err().unwrap();
    assert!(err.to_string().starts_with("MLS error: expected a commit message, got: "));
}

#[test]
fn test_welcome_bytes_must_be_a_welcome() {
    let alice = mls::create_group(b"kim").unwrap();
    let bob_kp = mls::generate_key_package(b"lee").unwrap();
    let added = mls::add_member(&alice.group_state, &bob_kp.key_package).unwrap();
    let err = mls::process_welcome(&added.commit, &bob_kp.secret_bundle).err().unwrap();
    assert_eq!(err.to_string(), "MLS error: expected a Welcome message");
}

#[test]
fn test_unknown_group_id_rendering() {
    let alice = mls::create_group(b"mo").unwrap();
    let text = String::from_utf8(alice.group_state.clone()).unwrap();
    let start = text.find(r#""group_id":["#).unwrap();
    let head = &text[..start];
    let other = format!("{head}\"group_id\":[91,49,44,50,93]}}");
    let kp = mls::generate_key_package(b"ned").unwrap();
    let err = mls::add_member(other.as_bytes(), &kp.key_package).err().unwrap();
    assert!(
        err.to_string().starts_with("Serialization error: group_id: ")
            || err.to_string() == "MLS group not found: no group found for id [1, 2]"
    );
}

#[test]
fn test_new_group_epoch_and_id() {
    let g = ghostcrypt_crypto::mls::create_group(b"alice").ok().unwrap();
    assert_eq!(g.epoch, 0);
    assert_eq!(g.group_id.len(), 16);
    let add = ghostcrypt_crypto::mls::add_member(
        &g.group_state,
        &ghostcrypt_crypto::mls::generate_key_package(b"bob").ok().unwrap().key_package,
    )
    .ok()
    .unwrap();
    assert!(add.commit.len() >= 4 && add.welcome.len() >= 4);
}
