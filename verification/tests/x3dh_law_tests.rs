use ghostcrypt_crypto::curve::PublicKey;
use ghostcrypt_crypto::identity::{IdentityKeyPair, OneTimePreKey, SignedPreKey};
use ghostcrypt_crypto::x3dh::{initiate_with_ephemeral, respond, PreKeyBundle};
use ghostcrypt_crypto::CryptoError;

fn x25519(secret: [u8; 32], public: &[u8; 32]) -> [u8; 32] {
    let s = x25519_dalek::StaticSecret::from(secret);
    s.diffie_hellman(&x25519_dalek::PublicKey::from(*public)).to_bytes()
}

fn public_of(secret: [u8; 32]) -> [u8; 32] {
    x25519_dalek::PublicKey::from(&x25519_dalek::StaticSecret::from(secret)).to_bytes()
}

fn bundle_of(identity: &IdentityKeyPair, spk: &SignedPreKey, opk: Option<&OneTimePreKey>) -> PreKeyBundle {
    PreKeyBundle {
        identity_key: identity.public_key().clone(),
        identity_verifying_key: identity.verifying_key(),
        signed_pre_key: spk.public_key().clone(),
        signature: spk.signature().to_vec(),
        one_time_pre_key: opk.map(|k| k.public_key().clone()),
    }
}

#[test]
fn test_fixed_ephemeral_matches_responder_and_formula() {
    let alice = IdentityKeyPair::generate();
    let bob = IdentityKeyPair::generate();
    let spk = SignedPreKey::generate(&bob);
    let opks = OneTimePreKey::generate_batch(1);
    let bundle = bundle_of(&bob, &spk, Some(&opks[0]));
    let ephemeral = [0x21u8; 32];
    let init = initiate_with_ephemeral(&alice, &bundle, &ephemeral).unwrap();
    assert_eq!(init.ephemeral_key.as_bytes(), &public_of(ephemeral));

    let mut material = Vec::new();
    material.extend_from_slice(&x25519(alice.secret_bytes(), spk.public_key().as_bytes()));
    material.extend_from_slice(&x25519(ephemeral, bob.public_key().as_bytes()));
    material.extend_from_slice(&x25519(ephemeral, spk.public_key().as_bytes()));
    material.extend_from_slice(&x25519(ephemeral, opks[0].public_key().as_bytes()));
    let mut expected = [0u8; 32];
    hkdf::Hkdf::<sha2::Sha256>::new(Some(b"GhostCrypt_X3DH"), &material)
        .expand(b"X3DH_shared_secret", &mut expected)
        .unwrap();
    assert_eq!(init.shared_secret, expected.to_vec());

    let resp = respond(&bob, &spk, Some(&opks[0]), alice.public_key(), &init.ephemeral_key).unwrap();
    assert_eq!(resp.shared_secret, init.shared_secret);
    assert_eq!(resp.ephemeral_key.as_bytes(), init.ephemeral_key.as_bytes());
}

#[test]
fn test_fixed_ephemeral_is_deterministic() {
    let alice = IdentityKeyPair::generate();
    let bob = IdentityKeyPair::generate();
    let spk = SignedPreKey::generate(&bob);
    let bundle = bundle_of(&bob, &spk, None);
    let a = initiate_with_ephemeral(&alice, &bundle, &[5u8; 32]).unwrap();
    let b = initiate_with_ephemeral(&alice, &bundle, &[5u8; 32]).unwrap();
    assert_eq!(a.shared_secret, b.shared_secret);
    let c = initiate_with_ephemeral(&alice, &bundle, &[6u8; 32]).unwrap();
    assert_ne!(a.shared_secret, c.shared_secret);
}

#[test]
fn test_missing_one_time_key_changes_the_secret() {
    let alice = IdentityKeyPair::generate();
    let bob = IdentityKeyPair::generate();
    let spk = SignedPreKey::generate(&bob);
    let opks = OneTimePreKey::generate_batch(1);
    let with = initiate_with_ephemeral(&alice, &bundle_of(&bob, &spk, Some(&opks[0])), &[1u8; 32]).unwrap();
    let without = initiate_with_ephemeral(&alice, &bundle_of(&bob, &spk, None), &[1u8; 32]).unwrap();
    assert_ne!(with.shared_secret, without.shared_secret);
}

#[test]
fn test_forged_signature_refused_with_text() {
    let alice = IdentityKeyPair::generate();
    let bob = IdentityKeyPair::generate();
    let spk = SignedPreKey::generate(&bob);
    let mut bundle = bundle_of(&bob, &spk, None);
    bundle.signature[10] ^= 0x80;
    let err = initiate_with_ephemeral(&alice, &bundle, &[2u8; 32]).err().unwrap();
    assert!(matches!(err, CryptoError::InvalidSignature(_)));
    assert_eq!(err.to_string(), "Invalid signature: signed pre-key signature failed verification");
}

#[test]
fn test_signature_of_other_key_refused() {
    let alice = IdentityKeyPair::generate();
    let bob = IdentityKeyPair::generate();
    let spk = SignedPreKey::generate(&bob);
    let mut bundle = bundle_of(&bob, &spk, None);
    bundle.signed_pre_key = PublicKey::from_bytes([3u8; 32]);
    assert!(initiate_with_ephemeral(&alice, &bundle, &[2u8; 32]).is_err());
}
