//! The foreign-function surface: flat byte-oriented operations, with Double Ratchet
//! sessions and MLS group states kept in stores and referred to by `u32` handles.
//! Fallible operations report errors as text.

use vstd::prelude::*;
use std::collections::HashMap;

use crate::aead::{aes256gcm_seal, opened, Encrypted, AEAD_MAX_INPUT, NONCE_LEN};
use crate::bytes::{array32_from_slice, decimal_text, text_with_number, to_vec};
use crate::curve::{
    ed25519_key_decodes, ed25519_public_of, ed25519_signature, ed25519_verifies,
    x25519_public_of, x25519_shared, PublicKey, VerifyingKey,
};
use crate::error::CryptoError;
use crate::identity::{IdentityKeyPair, OneTimePreKey, SignedPreKey};
use crate::mls::{
    add_member_failure, create_group_failure, decrypt_message_failure, encrypt_message_failure,
    key_package_failure, process_commit_failure, process_welcome_failure, remove_member_failure,
    blob_refusals_only_if, labelled, malformed_secrets_text, secret_refusals_only_if, secret_blob, secret_store, state_blob, state_store, store_decodes,
};
use crate::ratchet::header::{header_json, HeaderFields, MessageHeader};
use crate::ratchet::state::{
    advance_sending, decrypt_spec, decrypt_stage_spec, in_step, initiator_state,
    lemma_new_chain_message_delivered, lemma_same_chain_message_delivered, lemma_stage_of_decrypt,
    next_header, reads_same_chain,
    next_sending_key, responder_state, DecryptOutcome, DecryptStage, SessionState,
};
use crate::ratchet::Session;
use crate::x3dh::{initiator_key_material, responder_key_material, x3dh_info, x3dh_salt, x3dh_shared_secret, PreKeyBundle};
use crate::kdf::hkdf_sha256;

verus! {

broadcast use vstd::std_specs::hash::group_hash_axioms;

/// A fresh identity keypair as bytes.
pub struct IdentityKeyResult {
    /// X25519 secret (32 bytes).
    pub identity_secret: Vec<u8>,
    /// X25519 public key (32 bytes).
    pub identity_public: Vec<u8>,
    /// Ed25519 signing key (32 bytes).
    pub signing_secret: Vec<u8>,
    /// Ed25519 verifying key (32 bytes).
    pub signing_public: Vec<u8>,
}

/// A fresh signed pre-key as bytes.
pub struct SignedPreKeyResult {
    /// X25519 secret (32 bytes).
    pub secret: Vec<u8>,
    /// X25519 public key (32 bytes).
    pub public_key: Vec<u8>,
    /// Ed25519 signature over the public key (64 bytes).
    pub signature: Vec<u8>,
}

/// A fresh one-time pre-key as bytes.
pub struct OneTimePreKeyResult {
    pub id: u32,
    /// X25519 public key (32 bytes).
    pub public_key: Vec<u8>,
    /// X25519 secret (32 bytes).
    pub secret: Vec<u8>,
}

/// The initiator's X3DH result.
pub struct X3dhInitResult {
    /// Derived shared secret (32 bytes).
    pub shared_secret: Vec<u8>,
    /// The initiator's ephemeral public key (32 bytes).
    pub ephemeral_public: Vec<u8>,
}

/// The responder's X3DH result.
pub struct X3dhRespondResult {
    /// Derived shared secret (32 bytes).
    pub shared_secret: Vec<u8>,
}

/// A Double Ratchet message header as plain values.
pub struct MessageHeaderData {
    pub dh_public_key: Vec<u8>,
    pub message_number: u32,
    pub previous_chain_length: u32,
}

/// The output of encrypting with a session.
pub struct EncryptResult {
    pub header: MessageHeaderData,
    pub ciphertext: Vec<u8>,
    pub nonce: Vec<u8>,
}

/// The output of simple AES-256-GCM encryption.
pub struct SimpleEncryptResult {
    pub ciphertext: Vec<u8>,
    pub nonce: Vec<u8>,
}

/// The values of a header.
pub open spec fn header_data_fields(h: MessageHeaderData) -> HeaderFields {
    HeaderFields {
        dh_public_key: h.dh_public_key@,
        message_number: h.message_number,
        previous_chain_length: h.previous_chain_length,
    }
}

/// The error text of a byte string that should be a 32-byte public key.
pub open spec fn public_key_length_error(bytes: Seq<u8>) -> Seq<char> {
    "Expected 32 bytes for public key, got "@ + decimal_text(bytes.len())
}

/// The error text of a byte string that should be a 32-byte verifying key.
pub open spec fn verifying_key_length_error(bytes: Seq<u8>) -> Seq<char> {
    "Expected 32 bytes for verifying key, got "@ + decimal_text(bytes.len())
}

/// The error text of 32 bytes that are not an Ed25519 verifying key.
pub open spec fn verifying_key_decode_error() -> Seq<char> {
    "Invalid Ed25519 verifying key: signature error: Cannot decompress Edwards point"@
}

/// Why identity secrets are refused, as error text, if they are.
pub open spec fn identity_import_error(identity_secret: Seq<u8>, signing_secret: Seq<u8>) -> Option<Seq<char>> {
    if identity_secret.len() != 32 {
        Some("Invalid key: "@ + "identity secret must be 32 bytes, got "@ + decimal_text(identity_secret.len()))
    } else if signing_secret.len() != 32 {
        Some("Invalid key: "@ + "signing secret must be 32 bytes, got "@ + decimal_text(signing_secret.len()))
    } else {
        None
    }
}

/// Why signed pre-key bytes are refused, as error text, if they are.
pub open spec fn pre_key_import_error(secret: Seq<u8>, public: Seq<u8>, signature: Seq<u8>) -> Option<Seq<char>> {
    if secret.len() != 32 {
        Some("Invalid key: "@ + "secret must be 32 bytes, got "@ + decimal_text(secret.len()))
    } else if public.len() != 32 {
        Some("Invalid key: "@ + "public key must be 32 bytes, got "@ + decimal_text(public.len()))
    } else if signature.len() != 64 {
        Some("Invalid key: "@ + "signature must be 64 bytes, got "@ + decimal_text(signature.len()))
    } else {
        None
    }
}

/// Why the inputs of [`x3dh_initiate`] are refused before any key agreement, if they are:
/// the first failing check in order.
pub open spec fn x3dh_initiate_rejection(
    alice_identity_secret: Seq<u8>,
    alice_signing_secret: Seq<u8>,
    bob_identity_public: Seq<u8>,
    bob_signing_public: Seq<u8>,
    bob_spk_public: Seq<u8>,
    bob_opk_public: Option<Seq<u8>>,
) -> Option<Seq<char>> {
    if identity_import_error(alice_identity_secret, alice_signing_secret) is Some {
        identity_import_error(alice_identity_secret, alice_signing_secret)
    } else if bob_identity_public.len() != 32 {
        Some(public_key_length_error(bob_identity_public))
    } else if bob_spk_public.len() != 32 {
        Some(public_key_length_error(bob_spk_public))
    } else if bob_signing_public.len() != 32 {
        Some(verifying_key_length_error(bob_signing_public))
    } else if !ed25519_key_decodes(bob_signing_public) {
        Some(verifying_key_decode_error())
    } else if bob_opk_public matches Some(o) && o.len() != 32 {
        Some(public_key_length_error(bob_opk_public.unwrap()))
    } else {
        None
    }
}

/// Why the inputs of [`x3dh_respond`] are refused, if they are: the first failing check
/// in order.
pub open spec fn x3dh_respond_rejection(
    bob_identity_secret: Seq<u8>,
    bob_signing_secret: Seq<u8>,
    bob_spk_secret: Seq<u8>,
    bob_spk_public: Seq<u8>,
    bob_spk_signature: Seq<u8>,
    alice_identity_public: Seq<u8>,
    alice_ephemeral_public: Seq<u8>,
) -> Option<Seq<char>> {
    if identity_import_error(bob_identity_secret, bob_signing_secret) is Some {
        identity_import_error(bob_identity_secret, bob_signing_secret)
    } else if pre_key_import_error(bob_spk_secret, bob_spk_public, bob_spk_signature) is Some {
        pre_key_import_error(bob_spk_secret, bob_spk_public, bob_spk_signature)
    } else if alice_identity_public.len() != 32 {
        Some(public_key_length_error(alice_identity_public))
    } else if alice_ephemeral_public.len() != 32 {
        Some(public_key_length_error(alice_ephemeral_public))
    } else {
        None
    }
}

/// The text of an error.
pub fn map_err(e: CryptoError) -> (r: String)
    ensures
        r@ == e.prefix() + e.detail(),
{
    e.to_string()
}

fn bytes_to_public_key(bytes: &[u8]) -> (r: Result<PublicKey, String>)
    ensures
        bytes@.len() == 32 ==> (r matches Ok(k) && k@ == bytes@),
        bytes@.len() != 32 ==> (r matches Err(m) && m@ == public_key_length_error(bytes@)),
{
    if bytes.len() != 32 {
        return Err(text_with_number("Expected 32 bytes for public key, got ", bytes.len() as u64));
    }
    Ok(PublicKey::from_bytes(array32_from_slice(bytes)))
}

fn bytes_to_verifying_key(bytes: &[u8]) -> (r: Result<VerifyingKey, String>)
    ensures
        bytes@.len() != 32 ==> (r matches Err(m) && m@ == verifying_key_length_error(bytes@)),
        bytes@.len() == 32 && !ed25519_key_decodes(bytes@) ==> (r matches Err(m) && m@
            == verifying_key_decode_error()),
        bytes@.len() == 32 && ed25519_key_decodes(bytes@) ==> (r matches Ok(k) && k@ == bytes@),
{
    if bytes.len() != 32 {
        return Err(text_with_number("Expected 32 bytes for verifying key, got ", bytes.len() as u64));
    }
    let arr = array32_from_slice(bytes);
    match VerifyingKey::from_bytes(&arr) {
        Some(k) => Ok(k),
        None => Err(String::from_str("Invalid Ed25519 verifying key: signature error: Cannot decompress Edwards point")),
    }
}

/// Generate a fresh identity keypair (X25519 + Ed25519) as bytes; each public key
/// belongs to its secret.
pub fn generate_identity_keypair() -> (r: IdentityKeyResult)
    ensures
        r.identity_secret@.len() == 32 && r.signing_secret@.len() == 32,
        r.identity_public@ == x25519_public_of(r.identity_secret@),
        r.signing_public@ == ed25519_public_of(r.signing_secret@),
        r.identity_public@.len() == 32 && r.signing_public@.len() == 32,
        ed25519_key_decodes(r.signing_public@),
{
    let kp = IdentityKeyPair::generate();
    IdentityKeyResult {
        identity_secret: to_vec(&kp.secret_bytes()),
        identity_public: to_vec(kp.public_key().as_bytes()),
        signing_secret: to_vec(&kp.signing_secret_bytes()),
        signing_public: to_vec(kp.verifying_key().as_bytes()),
    }
}

/// Generate a signed pre-key for an identity given as its two secrets. The pre-key's
/// public key belongs to its secret and is signed with the identity's signing key.
pub fn generate_signed_pre_key(identity_secret: Vec<u8>, signing_secret: Vec<u8>) -> (r: Result<SignedPreKeyResult, String>)
    ensures
        identity_import_error(identity_secret@, signing_secret@) matches Some(m) ==> (r matches Err(
            s,
        ) && s@ == m),
        identity_import_error(identity_secret@, signing_secret@) is None ==> (r matches Ok(k)
            && k.secret@.len() == 32 && k.public_key@.len() == 32 && k.signature@.len() == 64
            && k.public_key@ == x25519_public_of(k.secret@) && k.signature@
            == ed25519_signature(signing_secret@, k.public_key@) && ed25519_verifies(
            ed25519_public_of(signing_secret@),
            k.public_key@,
            k.signature@,
        )),
{
    let identity = match IdentityKeyPair::from_bytes(identity_secret.as_slice(), signing_secret.as_slice()) {
        Ok(k) => k,
        Err(e) => {
            return Err(map_err(e));
        },
    };
    let spk = SignedPreKey::generate(&identity);
    proof {
        spk.lemma_secret_length();
    }
    Ok(
        SignedPreKeyResult {
            secret: to_vec(&spk.secret_bytes()),
            public_key: to_vec(spk.public_key().as_bytes()),
            signature: to_vec(spk.signature()),
        },
    )
}

/// The results carry the keys one for one: the `i`-th result has the identifier, the
/// secret and the public key of the `i`-th key.
pub open spec fn carries_keys(results: Seq<OneTimePreKeyResult>, keys: Seq<OneTimePreKey>) -> bool {
    &&& results.len() == keys.len()
    &&& forall|i: int|
        0 <= i < keys.len() ==> (#[trigger] results[i]).id == keys[i].key_id() && results[i].secret@
            == keys[i].secret_seed() && results[i].public_key@ == x25519_public_of(keys[i].secret_seed())
}

/// Law (one result per key): results that carry keys one for one are pairwise distinct
/// wherever the keys' secrets are, in secret and in public key (a public key determines
/// nothing less than its secret's key pair, so equal public keys come only from keys whose
/// public keys are equal).
pub proof fn lemma_results_distinct(results: Seq<OneTimePreKeyResult>, keys: Seq<OneTimePreKey>, i: int, j: int)
    requires
        carries_keys(results, keys),
        0 <= i < keys.len(),
        0 <= j < keys.len(),
    ensures
        keys[i].secret_seed() != keys[j].secret_seed() ==> results[i].secret@ != results[j].secret@,
        x25519_public_of(keys[i].secret_seed()) != x25519_public_of(keys[j].secret_seed())
            ==> results[i].public_key@ != results[j].public_key@,
{
}

/// The byte form of one-time pre-keys, one result per key and in order.
pub fn one_time_pre_key_results(keys: &Vec<OneTimePreKey>) -> (r: Vec<OneTimePreKeyResult>)
    ensures
        carries_keys(r@, keys@),
        forall|i: int|
            0 <= i < keys@.len() ==> (#[trigger] r@[i]).secret@.len() == 32 && r@[i].public_key@.len() == 32,
{
    let mut out: Vec<OneTimePreKeyResult> = Vec::new();
    let mut i: usize = 0;
    while i < keys.len()
        invariant
            i <= keys@.len(),
            out@.len() == i,
            forall|j: int|
                0 <= j < i ==> (#[trigger] out@[j]).id == keys@[j].key_id() && out@[j].secret@
                    == keys@[j].secret_seed() && out@[j].public_key@ == x25519_public_of(keys@[j].secret_seed())
                    && out@[j].secret@.len() == 32 && out@[j].public_key@.len() == 32,
        decreases keys@.len() - i,
    {
        let k = &keys[i];
        proof {
            k.lemma_secret_length();
        }
        out.push(
            OneTimePreKeyResult {
                id: k.id(),
                public_key: to_vec(k.public_key().as_bytes()),
                secret: to_vec(&k.secret_bytes()),
            },
        );
        i = i + 1;
    }
    out
}

/// Generate `count` one-time pre-keys with identifiers 0, 1, 2, ..., each from its own
/// random secret; each public key belongs to its secret.
pub fn generate_one_time_pre_keys(count: u32) -> (r: Vec<OneTimePreKeyResult>)
    ensures
        r@.len() == count,
        forall|i: int|
            0 <= i < count ==> (#[trigger] r@[i]).id == i && r@[i].secret@.len() == 32
                && r@[i].public_key@.len() == 32 && r@[i].public_key@ == x25519_public_of(r@[i].secret@),
{
    let keys = OneTimePreKey::generate_batch(count as usize);
    let out = one_time_pre_key_results(&keys);
    assert forall|i: int| 0 <= i < count implies (#[trigger] out@[i]).id == i by {
        assert(out@[i].id == keys@[i].key_id());
    }
    out
}

/// The initiator's X3DH from bytes: import the identity, check the responder's keys,
/// authenticate the signed pre-key and derive the shared secret with a random ephemeral
/// key. Refusals come in the order of [`x3dh_initiate_rejection`]; a signed pre-key whose
/// signature does not verify is refused after them.
pub fn x3dh_initiate(
    alice_identity_secret: Vec<u8>,
    alice_signing_secret: Vec<u8>,
    bob_identity_public: Vec<u8>,
    bob_signing_public: Vec<u8>,
    bob_spk_public: Vec<u8>,
    bob_spk_signature: Vec<u8>,
    bob_opk_public: Option<Vec<u8>>,
) -> (r: Result<X3dhInitResult, String>)
    ensures
        ({
            let opk = match bob_opk_public {
                Some(o) => Some(o@),
                None => None,
            };
            let rejection = x3dh_initiate_rejection(
                alice_identity_secret@,
                alice_signing_secret@,
                bob_identity_public@,
                bob_signing_public@,
                bob_spk_public@,
                opk,
            );
            let authentic = bob_spk_signature@.len() == 64 && ed25519_verifies(
                bob_signing_public@,
                bob_spk_public@,
                bob_spk_signature@,
            );
            &&& rejection matches Some(m) ==> (r matches Err(s) && s@ == m)
            &&& rejection is None && !authentic ==> (r matches Err(s) && s@ == "Invalid signature: "@
                + "signed pre-key signature failed verification"@)
            &&& rejection is None && authentic ==> r is Ok
            &&& r matches Ok(res) ==> res.shared_secret@.len() == 32 && res.ephemeral_public@.len() == 32 && exists|e: Seq<u8>|
                e.len() == 32 && #[trigger] x25519_public_of(e) == res.ephemeral_public@
                    && res.shared_secret@ == x3dh_shared_secret(
                    initiator_key_material(
                        alice_identity_secret@,
                        e,
                        bob_identity_public@,
                        bob_spk_public@,
                        opk,
                    ),
                ) && (opk is None ==> res.shared_secret@ == hkdf_sha256(
                    x25519_shared(alice_identity_secret@, bob_spk_public@) + x25519_shared(e, bob_identity_public@)
                        + x25519_shared(e, bob_spk_public@),
                    x3dh_salt(),
                    x3dh_info(),
                    32,
                )) && (opk matches Some(o) ==> res.shared_secret@ == hkdf_sha256(
                    x25519_shared(alice_identity_secret@, bob_spk_public@) + x25519_shared(e, bob_identity_public@)
                        + x25519_shared(e, bob_spk_public@) + x25519_shared(e, o),
                    x3dh_salt(),
                    x3dh_info(),
                    32,
                ))
        }),
{
    let alice_identity = match IdentityKeyPair::from_bytes(alice_identity_secret.as_slice(), alice_signing_secret.as_slice()) {
        Ok(k) => k,
        Err(e) => {
            return Err(map_err(e));
        },
    };
    let bob_ik = bytes_to_public_key(bob_identity_public.as_slice())?;
    let bob_spk = bytes_to_public_key(bob_spk_public.as_slice())?;
    let bob_vk = bytes_to_verifying_key(bob_signing_public.as_slice())?;
    let bob_opk = match &bob_opk_public {
        Some(bytes) => Some(bytes_to_public_key(bytes.as_slice())?),
        None => None,
    };
    let bundle = PreKeyBundle {
        identity_key: bob_ik,
        identity_verifying_key: bob_vk,
        signed_pre_key: bob_spk,
        signature: bob_spk_signature,
        one_time_pre_key: bob_opk,
    };
    let result = match crate::x3dh::initiate(&alice_identity, &bundle) {
        Ok(res) => res,
        Err(e) => {
            return Err(map_err(e));
        },
    };
    Ok(X3dhInitResult { shared_secret: result.shared_secret, ephemeral_public: to_vec(result.ephemeral_key.as_bytes()) })
}

/// The responder's X3DH from bytes (without a one-time pre-key). Refusals come in the
/// order of [`x3dh_respond_rejection`]. The secret agrees with the initiator's: for every
/// pair of initiator secrets behind the given public keys, it equals what the initiator
/// derives from the responder's public keys.
pub fn x3dh_respond(
    bob_identity_secret: Vec<u8>,
    bob_signing_secret: Vec<u8>,
    bob_spk_secret: Vec<u8>,
    bob_spk_public: Vec<u8>,
    bob_spk_signature: Vec<u8>,
    alice_identity_public: Vec<u8>,
    alice_ephemeral_public: Vec<u8>,
) -> (r: Result<X3dhRespondResult, String>)
    ensures
        ({
            let rejection = x3dh_respond_rejection(
                bob_identity_secret@,
                bob_signing_secret@,
                bob_spk_secret@,
                bob_spk_public@,
                bob_spk_signature@,
                alice_identity_public@,
                alice_ephemeral_public@,
            );
            &&& rejection matches Some(m) ==> (r matches Err(s) && s@ == m)
            &&& rejection is None ==> (r matches Ok(res) && res.shared_secret@ == hkdf_sha256(
                x25519_shared(bob_spk_secret@, alice_identity_public@) + x25519_shared(
                    bob_identity_secret@,
                    alice_ephemeral_public@,
                ) + x25519_shared(bob_spk_secret@, alice_ephemeral_public@),
                x3dh_salt(),
                x3dh_info(),
                32,
            ))
            &&& rejection is None ==> (r matches Ok(res) && res.shared_secret@ == x3dh_shared_secret(
                responder_key_material(
                    bob_identity_secret@,
                    bob_spk_secret@,
                    None,
                    alice_identity_public@,
                    alice_ephemeral_public@,
                ),
            ) && res.shared_secret@.len() == 32)
            &&& r matches Ok(res) ==> forall|a: Seq<u8>, e: Seq<u8>|
                #![trigger x25519_public_of(a), x25519_public_of(e)]
                a.len() == 32 && e.len() == 32 && x25519_public_of(a) == alice_identity_public@
                    && x25519_public_of(e) == alice_ephemeral_public@ ==> res.shared_secret@
                    == x3dh_shared_secret(
                    initiator_key_material(
                        a,
                        e,
                        x25519_public_of(bob_identity_secret@),
                        x25519_public_of(bob_spk_secret@),
                        None,
                    ),
                )
        }),
{
    let bob_identity = match IdentityKeyPair::from_bytes(bob_identity_secret.as_slice(), bob_signing_secret.as_slice()) {
        Ok(k) => k,
        Err(e) => {
            return Err(map_err(e));
        },
    };
    let bob_spk = match SignedPreKey::from_bytes(bob_spk_secret.as_slice(), bob_spk_public.as_slice(), bob_spk_signature.as_slice()) {
        Ok(k) => k,
        Err(e) => {
            return Err(map_err(e));
        },
    };
    let alice_ik = bytes_to_public_key(alice_identity_public.as_slice())?;
    let alice_ek = bytes_to_public_key(alice_ephemeral_public.as_slice())?;
    let result = match crate::x3dh::respond(&bob_identity, &bob_spk, None, &alice_ik, &alice_ek) {
        Ok(res) => res,
        Err(e) => {
            return Err(map_err(e));
        },
    };
    Ok(X3dhRespondResult { shared_secret: result.shared_secret })
}

/// Simple AES-256-GCM encryption with a caller-provided 32-byte key and no associated data.
pub fn aes_encrypt(key: Vec<u8>, plaintext: Vec<u8>) -> (r: Result<SimpleEncryptResult, String>)
    ensures
        key@.len() != 32 ==> (r matches Err(m) && m@ == "Key must be 32 bytes, got "@ + decimal_text(key@.len())),
        key@.len() == 32 && plaintext@.len() <= AEAD_MAX_INPUT ==> r is Ok,
        key@.len() == 32 && plaintext@.len() > AEAD_MAX_INPUT ==> r is Err,
        r matches Ok(res) ==> res.ciphertext@.len() == plaintext@.len() + 16,
        r matches Ok(res) ==> res.nonce@.len() == NONCE_LEN && res.ciphertext@ == aes256gcm_seal(
            key@,
            res.nonce@,
            plaintext@,
            Seq::empty(),
        ) && opened(key@, Encrypted { nonce: res.nonce, ciphertext: res.ciphertext }, Seq::empty()) == Some(plaintext@),
{
    if key.len() != 32 {
        return Err(text_with_number("Key must be 32 bytes, got ", key.len() as u64));
    }
    let key_arr = array32_from_slice(key.as_slice());
    let empty: [u8; 0] = [];
    assert(empty@ =~= Seq::<u8>::empty());
    let encrypted = match crate::aead::encrypt(&key_arr, plaintext.as_slice(), &empty) {
        Ok(e) => e,
        Err(e) => {
            return Err(e.to_string());
        },
    };
    Ok(SimpleEncryptResult { ciphertext: encrypted.ciphertext, nonce: encrypted.nonce })
}

/// Simple AES-256-GCM decryption with a caller-provided 32-byte key and no associated data.
pub fn aes_decrypt(key: Vec<u8>, ciphertext: Vec<u8>, nonce: Vec<u8>) -> (r: Result<Vec<u8>, String>)
    ensures
        key@.len() != 32 ==> (r matches Err(m) && m@ == "Key must be 32 bytes, got "@ + decimal_text(key@.len())),
        key@.len() == 32 && nonce@.len() != NONCE_LEN ==> (r matches Err(m) && m@ == nonce_length_error(nonce@)),
        key@.len() == 32 && nonce@.len() == NONCE_LEN ==> match opened(key@, Encrypted { nonce, ciphertext }, Seq::empty()) {
            Some(p) => (r matches Ok(v) && v@ == p),
            None => (r matches Err(m) && m@ == "Decryption failed: "@ + "Decryption failed: aead::Error"@),
        },
{
    if key.len() != 32 {
        return Err(text_with_number("Key must be 32 bytes, got ", key.len() as u64));
    }
    if nonce.len() != 12 {
        return Err(text_with_number("Nonce must be 12 bytes, got ", nonce.len() as u64));
    }
    let key_arr = array32_from_slice(key.as_slice());
    let empty: [u8; 0] = [];
    assert(empty@ =~= Seq::<u8>::empty());
    let encrypted = Encrypted { ciphertext, nonce };
    match crate::aead::decrypt(&key_arr, &encrypted, &empty) {
        Ok(p) => Ok(p),
        Err(e) => Err(e.to_string()),
    }
}

/// The handle that follows `h` (wrapping around after `u32::MAX`).
pub open spec fn following_handle(h: u32) -> u32 {
    if h == u32::MAX {
        0
    } else {
        (h + 1) as u32
    }
}

/// How an outcome of session decryption reads as a result with error text.
pub open spec fn reports_text(r: Result<Vec<u8>, String>, outcome: DecryptOutcome) -> bool {
    match outcome {
        DecryptOutcome::Plaintext(p) => (r matches Ok(v) && v@ == p),
        DecryptOutcome::NoReceivingChain => (r matches Err(m) && m@ == "Ratchet error: "@
            + "No receiving chain established"@),
        DecryptOutcome::TooManySkipped => (r matches Err(m) && m@ == "Ratchet error: "@
            + "Too many skipped messages"@),
        DecryptOutcome::AuthenticationFailure => (r matches Err(m) && m@ == "Decryption failed: "@
            + "Decryption failed: aead::Error"@),
        DecryptOutcome::CounterExhausted => false,
    }
}

/// The error text for an unknown session handle.
pub open spec fn unknown_session_error(handle: u32) -> Seq<char> {
    "No session with handle "@ + decimal_text(handle as nat)
}

/// Every stored session's handle is below the next handle to be given out, so that the
/// next one is unused.
pub open spec fn session_handles_fresh(store: SessionStore) -> bool {
    forall|h: u32| #[trigger] store.sessions().contains_key(h) ==> h < store.next_handle()
}

/// Every stored group state's handle is below the next handle to be given out, so that
/// the next one is unused.
pub open spec fn state_handles_fresh(store: MlsStateStore) -> bool {
    forall|h: u32| #[trigger] store.states().contains_key(h) ==> h < store.next_handle()
}

/// Double Ratchet sessions by handle, and the handle the next session receives.
pub struct SessionStore {
    next_session_id: u32,
    sessions: HashMap<u32, Session>,
    /// Whether the handle counter has run past `u32::MAX` and started again at 0.
    wrapped: Ghost<bool>,
}

impl SessionStore {
    /// Until the handle counter wraps around, every stored handle is below the next one.
    #[verifier::type_invariant]
    spec fn handles_below_next(self) -> bool {
        !self.wrapped@ ==> forall|h: u32| #[trigger] self.sessions@.contains_key(h) ==> h < self.next_session_id
    }

    /// Whether the handle counter has passed `u32::MAX` and started again at 0, after
    /// 2^32 sessions; only then can a handle be given out twice.
    pub closed spec fn has_wrapped(&self) -> bool {
        self.wrapped@
    }


    /// The handle the next stored session receives.
    pub closed spec fn next_handle(&self) -> u32 {
        self.next_session_id
    }

    /// The stored sessions by handle.
    pub closed spec fn sessions(&self) -> Map<u32, SessionState> {
        self.sessions@.map_values(|s: Session| s@)
    }

    /// An empty store whose first handle is 1.
    pub fn new() -> (r: Self)
        ensures
            r.next_handle() == 1,
            r.sessions() == Map::<u32, SessionState>::empty(),
            session_handles_fresh(r),
            !r.has_wrapped(),
    {
        let r = SessionStore { next_session_id: 1, sessions: HashMap::new(), wrapped: Ghost(false) };
        assert(r.sessions() =~= Map::<u32, SessionState>::empty());
        r
    }

    fn store(&mut self, session: Session) -> (h: u32)
        ensures
            h == old(self).next_handle(),
            final(self).next_handle() == following_handle(old(self).next_handle()),
            final(self).sessions() == old(self).sessions().insert(h, session@),
            !old(self).has_wrapped() ==> !old(self).sessions().contains_key(h),
            final(self).has_wrapped() == (old(self).has_wrapped() || old(self).next_handle() == u32::MAX),
    {
        proof {
            use_type_invariant(&*self);
        }
        let handle = self.next_session_id;
        let ghost wrapped = self.wrapped@ || handle == u32::MAX;
        let mut sessions: HashMap<u32, Session> = HashMap::new();
        core::mem::swap(&mut sessions, &mut self.sessions);
        sessions.insert(handle, session);
        let next = if handle == u32::MAX {
            0
        } else {
            handle + 1
        };
        *self = SessionStore { next_session_id: next, sessions, wrapped: Ghost(wrapped) };
        assert(self.sessions() =~= old(self).sessions().insert(handle, session@));
        handle
    }

    /// Take the session under `handle` out of the store.
    fn take(&mut self, handle: u32) -> (r: Option<Session>)
        ensures
            final(self).next_handle() == old(self).next_handle(),
            final(self).has_wrapped() == old(self).has_wrapped(),
            final(self).sessions() == old(self).sessions().remove(handle),
            old(self).sessions().contains_key(handle) ==> (r matches Some(s) && s@ == old(self).sessions()[handle]),
            !old(self).sessions().contains_key(handle) ==> r is None,
            r is Some && !old(self).has_wrapped() ==> handle < old(self).next_handle(),
    {
        proof {
            use_type_invariant(&*self);
        }
        let mut sessions: HashMap<u32, Session> = HashMap::new();
        core::mem::swap(&mut sessions, &mut self.sessions);
        let taken = sessions.remove(&handle);
        let next = self.next_session_id;
        let ghost wrapped = self.wrapped@;
        *self = SessionStore { next_session_id: next, sessions, wrapped: Ghost(wrapped) };
        assert(self.sessions() =~= old(self).sessions().remove(handle));
        taken
    }

    /// Put a session back under a handle taken before.
    fn put(&mut self, handle: u32, session: Session)
        requires
            !old(self).has_wrapped() ==> handle < old(self).next_handle(),
        ensures
            final(self).next_handle() == old(self).next_handle(),
            final(self).has_wrapped() == old(self).has_wrapped(),
            final(self).sessions() == old(self).sessions().insert(handle, session@),
    {
        proof {
            use_type_invariant(&*self);
        }
        let mut sessions: HashMap<u32, Session> = HashMap::new();
        core::mem::swap(&mut sessions, &mut self.sessions);
        sessions.insert(handle, session);
        let next = self.next_session_id;
        let ghost wrapped = self.wrapped@;
        *self = SessionStore { next_session_id: next, sessions, wrapped: Ghost(wrapped) };
        assert(self.sessions() =~= old(self).sessions().insert(handle, session@));
    }

    /// Whether a session is stored under `handle`.
    pub fn has_session(&self, handle: u32) -> (r: bool)
        ensures
            r == self.sessions().contains_key(handle),
    {
        self.sessions.contains_key(&handle)
    }

    /// Whether encrypting with the session under `handle` would run its sending counter
    /// past `u32::MAX`.
    pub fn sending_counter_exhausted(&self, handle: u32) -> (r: bool)
        ensures
            r == (self.sessions().contains_key(handle) && (self.sessions()[handle].sending_chain matches Some(c)
                && c.1 == u32::MAX)),
    {
        match self.sessions.get(&handle) {
            Some(s) => s.sending_counter_exhausted(),
            None => false,
        }
    }
}

impl SessionStore {
    /// How far decrypting with the session under `handle` and this header would get before
    /// the ciphertext is read (see [`Session::decrypt_stage`]); `None` when there is no
    /// such session. The store is left as it is.
    pub fn decrypt_stage(&self, handle: u32, header: &MessageHeaderData) -> (r: Option<DecryptStage>)
        requires
            header.dh_public_key@.len() == 32,
        ensures
            r is None <==> !self.sessions().contains_key(handle),
            r matches Some(stage) ==> stage == decrypt_stage_spec(
                self.sessions()[handle],
                header_data_fields(*header),
            ),
    {
        match self.sessions.get(&handle) {
            Some(s) => {
                let msg_header = MessageHeader {
                    dh_public_key: to_vec(header.dh_public_key.as_slice()),
                    message_number: header.message_number,
                    previous_chain_length: header.previous_chain_length,
                };
                Some(s.decrypt_stage(&msg_header))
            },
            None => None,
        }
    }
}

/// Create a Double Ratchet session as the initiator from the X3DH shared secret and the
/// responder's signed pre-key; returns its handle.
pub fn create_session_initiator(store: &mut SessionStore, shared_secret: Vec<u8>, responder_spk_public: Vec<u8>) -> (r: Result<u32, String>)
    ensures
        !old(store).has_wrapped() ==> session_handles_fresh(*old(store)),
        !final(store).has_wrapped() ==> session_handles_fresh(*final(store)),
        !old(store).has_wrapped() ==> (r matches Ok(h) ==> !old(store).sessions().contains_key(h)),
        final(store).has_wrapped() == (old(store).has_wrapped() || (r is Ok && old(store).next_handle() == u32::MAX)),
        session_handles_fresh(*old(store)) ==> (r matches Ok(h) ==> !old(store).sessions().contains_key(h)),
        session_handles_fresh(*old(store)) && old(store).next_handle() < u32::MAX ==> session_handles_fresh(
            *final(store),
        ),
        responder_spk_public@.len() != 32 ==> (r matches Err(m) && m@ == public_key_length_error(
            responder_spk_public@,
        ) && final(store).sessions() == old(store).sessions() && final(store).next_handle()
            == old(store).next_handle()),
        responder_spk_public@.len() == 32 ==> (r matches Ok(h) && h == old(store).next_handle()
            && final(store).next_handle() == following_handle(old(store).next_handle()) && exists|a: Seq<u8>|
            a.len() == 32 && final(store).sessions() == old(store).sessions().insert(
                h,
                #[trigger] initiator_state(shared_secret@, responder_spk_public@, a),
            )),
{
    proof {
        use_type_invariant(&*store);
    }
    let bob_spk_pub = bytes_to_public_key(responder_spk_public.as_slice())?;
    let session = Session::init_alice(shared_secret.as_slice(), bob_spk_pub);
    let handle = store.store(session);
    Ok(handle)
}

/// Create a Double Ratchet session as the responder from the X3DH shared secret and our
/// signed pre-key's bytes; returns its handle.
pub fn create_session_responder(
    store: &mut SessionStore,
    shared_secret: Vec<u8>,
    our_spk_secret: Vec<u8>,
    our_spk_public: Vec<u8>,
    our_spk_signature: Vec<u8>,
) -> (r: Result<u32, String>)
    ensures
        !old(store).has_wrapped() ==> session_handles_fresh(*old(store)),
        !final(store).has_wrapped() ==> session_handles_fresh(*final(store)),
        !old(store).has_wrapped() ==> (r matches Ok(h) ==> !old(store).sessions().contains_key(h)),
        final(store).has_wrapped() == (old(store).has_wrapped() || (r is Ok && old(store).next_handle() == u32::MAX)),
        session_handles_fresh(*old(store)) ==> (r matches Ok(h) ==> !old(store).sessions().contains_key(h)),
        session_handles_fresh(*old(store)) && old(store).next_handle() < u32::MAX ==> session_handles_fresh(
            *final(store),
        ),
        pre_key_import_error(our_spk_secret@, our_spk_public@, our_spk_signature@) matches Some(m) ==> (
        r matches Err(s) && s@ == m && final(store).sessions() == old(store).sessions()
            && final(store).next_handle() == old(store).next_handle()),
        pre_key_import_error(our_spk_secret@, our_spk_public@, our_spk_signature@) is None ==> (
        r matches Ok(h) && h == old(store).next_handle() && final(store).next_handle()
            == following_handle(old(store).next_handle()) && final(store).sessions()
            == old(store).sessions().insert(
            h,
            responder_state(shared_secret@, our_spk_secret@, our_spk_public@),
        )),
{
    proof {
        use_type_invariant(&*store);
    }
    let spk = match SignedPreKey::from_bytes(our_spk_secret.as_slice(), our_spk_public.as_slice(), our_spk_signature.as_slice()) {
        Ok(k) => k,
        Err(e) => {
            return Err(map_err(e));
        },
    };
    let session = Session::init_bob(shared_secret.as_slice(), &spk);
    let handle = store.store(session);
    Ok(handle)
}

/// Encrypt with the session under `handle`; see [`Session::encrypt`].
pub fn session_encrypt(store: &mut SessionStore, session_handle: u32, plaintext: Vec<u8>) -> (r: Result<EncryptResult, String>)
    requires
        old(store).sessions().contains_key(session_handle) ==> (old(store).sessions()[session_handle].sending_chain matches Some(
            c,
        ) ==> c.1 < u32::MAX),
    ensures
        !old(store).has_wrapped() ==> session_handles_fresh(*old(store)),
        !final(store).has_wrapped() ==> session_handles_fresh(*final(store)),
        final(store).has_wrapped() == old(store).has_wrapped(),
        session_handles_fresh(*old(store)) ==> session_handles_fresh(*final(store)),
        final(store).next_handle() == old(store).next_handle(),
        !old(store).sessions().contains_key(session_handle) ==> (r matches Err(m) && m@
            == unknown_session_error(session_handle) && final(store).sessions() == old(store).sessions()),
        old(store).sessions().contains_key(session_handle) ==> ({
            let s = old(store).sessions()[session_handle];
            &&& s.sending_chain is None ==> final(store).sessions() == old(store).sessions()
            &&& s.sending_chain is None ==> (r matches Err(m) && m@ == "Ratchet error: "@
                + "No sending chain established"@)
            &&& s.sending_chain is Some ==> final(store).sessions() == old(store).sessions().insert(
                session_handle,
                advance_sending(s),
            )
            &&& s.sending_chain is Some ==> ((plaintext@.len() <= AEAD_MAX_INPUT && header_json(
                next_header(s),
            ).len() <= AEAD_MAX_INPUT) <==> r is Ok)
            &&& s.sending_chain is Some && r is Err ==> (r matches Err(m) && m@ == "Encryption failed: "@
                + "Encryption failed: aead::Error"@)
            &&& r matches Ok(res) ==> opened(
                next_sending_key(s),
                Encrypted { nonce: res.nonce, ciphertext: res.ciphertext },
                header_json(next_header(s)),
            ) == Some(plaintext@)
            &&& r matches Ok(res) ==> res.header.dh_public_key@.len() == 32 && res.ciphertext@.len()
                == plaintext@.len() + 16
            &&& r matches Ok(res) ==> header_data_fields(res.header) == next_header(s) && res.nonce@.len()
                == NONCE_LEN && res.ciphertext@ == aes256gcm_seal(
                next_sending_key(s),
                res.nonce@,
                plaintext@,
                header_json(next_header(s)),
            )
        }),
{
    proof {
        use_type_invariant(&*store);
    }
    let mut session = match store.take(session_handle) {
        Some(s) => s,
        None => {
            assert(store.sessions() =~= old(store).sessions());
            return Err(text_with_number("No session with handle ", session_handle as u64));
        },
    };
    let result = session.encrypt(plaintext.as_slice());
    store.put(session_handle, session);
    assert(store.sessions() =~= old(store).sessions().insert(session_handle, session@));
    let (header, encrypted) = match result {
        Ok(p) => p,
        Err(e) => {
            return Err(map_err(e));
        },
    };
    Ok(
        EncryptResult {
            header: MessageHeaderData {
                dh_public_key: header.dh_public_key,
                message_number: header.message_number,
                previous_chain_length: header.previous_chain_length,
            },
            ciphertext: encrypted.ciphertext,
            nonce: encrypted.nonce,
        },
    )
}

/// The error text of a nonce that is not 12 bytes long.
pub open spec fn nonce_length_error(nonce: Seq<u8>) -> Seq<char> {
    "Nonce must be 12 bytes, got "@ + decimal_text(nonce.len())
}

/// The error text when a session's receiving counter would pass `u32::MAX`.
pub open spec fn counter_exhausted_error() -> Seq<char> {
    "Ratchet error: Receiving message counter exhausted"@
}

/// Decrypt with the session under `handle`, given the header, ciphertext and nonce as
/// received; see [`Session::decrypt`]. Inputs that decryption cannot take are refused
/// first, the session unchanged: a header key that is not 32 bytes, a receiving counter
/// that would pass `u32::MAX`, and a nonce that is not 12 bytes where the ciphertext
/// would be opened.
pub fn session_decrypt(
    store: &mut SessionStore,
    session_handle: u32,
    header: MessageHeaderData,
    ciphertext: Vec<u8>,
    nonce: Vec<u8>,
) -> (r: Result<Vec<u8>, String>)
    ensures
        !old(store).has_wrapped() ==> session_handles_fresh(*old(store)),
        !final(store).has_wrapped() ==> session_handles_fresh(*final(store)),
        final(store).has_wrapped() == old(store).has_wrapped(),
        session_handles_fresh(*old(store)) ==> session_handles_fresh(*final(store)),
        final(store).next_handle() == old(store).next_handle(),
        !old(store).sessions().contains_key(session_handle) ==> (r matches Err(m) && m@
            == unknown_session_error(session_handle) && final(store).sessions() == old(store).sessions()),
        old(store).sessions().contains_key(session_handle) && header.dh_public_key@.len() != 32 ==> (r matches Err(m)
            && m@ == public_key_length_error(header.dh_public_key@) && final(store).sessions() == old(store).sessions()),
        old(store).sessions().contains_key(session_handle) && header.dh_public_key@.len() == 32 && decrypt_stage_spec(
            old(store).sessions()[session_handle],
            header_data_fields(header),
        ) == DecryptStage::CounterExhausted ==> (r matches Err(m) && m@ == counter_exhausted_error()
            && final(store).sessions() == old(store).sessions()),
        old(store).sessions().contains_key(session_handle) && header.dh_public_key@.len() == 32 && decrypt_stage_spec(
            old(store).sessions()[session_handle],
            header_data_fields(header),
        ) == DecryptStage::Opens && nonce@.len() != NONCE_LEN ==> (r matches Err(m) && m@ == nonce_length_error(nonce@)
            && final(store).sessions() == old(store).sessions()),
        old(store).sessions().contains_key(session_handle) && header.dh_public_key@.len() == 32 && decrypt_stage_spec(
            old(store).sessions()[session_handle],
            header_data_fields(header),
        ) != DecryptStage::CounterExhausted && (decrypt_stage_spec(
            old(store).sessions()[session_handle],
            header_data_fields(header),
        ) == DecryptStage::Opens ==> nonce@.len() == NONCE_LEN) ==> exists|fresh: Seq<u8>|
            fresh.len() == 32 && final(store).sessions() == old(store).sessions().insert(
                session_handle,
                (#[trigger] decrypt_spec(
                    old(store).sessions()[session_handle],
                    header_data_fields(header),
                    Encrypted { nonce, ciphertext },
                    fresh,
                )).0,
            ) && reports_text(
                r,
                decrypt_spec(
                    old(store).sessions()[session_handle],
                    header_data_fields(header),
                    Encrypted { nonce, ciphertext },
                    fresh,
                ).1,
            ),
{
    proof {
        use_type_invariant(&*store);
    }
    if !store.sessions.contains_key(&session_handle) {
        return Err(text_with_number("No session with handle ", session_handle as u64));
    }
    if header.dh_public_key.len() != 32 {
        return Err(text_with_number("Expected 32 bytes for public key, got ", header.dh_public_key.len() as u64));
    }
    let stage = match store.decrypt_stage(session_handle, &header) {
        Some(st) => st,
        None => {
            return Err(text_with_number("No session with handle ", session_handle as u64));
        },
    };
    if stage == DecryptStage::CounterExhausted {
        return Err(String::from_str("Ratchet error: Receiving message counter exhausted"));
    }
    if stage == DecryptStage::Opens && nonce.len() != 12 {
        return Err(text_with_number("Nonce must be 12 bytes, got ", nonce.len() as u64));
    }
    let mut session = match store.take(session_handle) {
        Some(s) => s,
        None => {
            assert(store.sessions() =~= old(store).sessions());
            return Err(text_with_number("No session with handle ", session_handle as u64));
        },
    };
    let msg_header = MessageHeader {
        dh_public_key: header.dh_public_key,
        message_number: header.message_number,
        previous_chain_length: header.previous_chain_length,
    };
    let encrypted = Encrypted { nonce, ciphertext };
    let result = session.decrypt(&msg_header, &encrypted);
    store.put(session_handle, session);
    assert(store.sessions() =~= old(store).sessions().insert(session_handle, session@));
    match result {
        Ok(p) => Ok(p),
        Err(e) => Err(map_err(e)),
    }
}

/// Law (round trip through the store): when the session `receiver` is in step with the
/// session `sender` and what [`session_encrypt`] returned for `sender` is handed to
/// [`session_decrypt`] for `receiver`, the decryption reaches the ciphertext and opens it
/// to the plaintext, whatever new ratchet secret a DH ratchet step adopts. The
/// requirements on the result are what `session_encrypt` ensures.
pub proof fn lemma_store_round_trip(sender: SessionState, receiver: SessionState, res: EncryptResult, plaintext: Seq<u8>)
    requires
        in_step(sender, receiver),
        sender.sending_chain matches Some(c) && c.1 < u32::MAX,
        header_data_fields(res.header) == next_header(sender),
        res.nonce@.len() == NONCE_LEN,
        opened(
            next_sending_key(sender),
            Encrypted { nonce: res.nonce, ciphertext: res.ciphertext },
            header_json(next_header(sender)),
        ) == Some(plaintext),
    ensures
        decrypt_stage_spec(receiver, header_data_fields(res.header)) == DecryptStage::Opens,
        forall|fresh: Seq<u8>|
            #[trigger] decrypt_spec(
                receiver,
                header_data_fields(res.header),
                Encrypted { nonce: res.nonce, ciphertext: res.ciphertext },
                fresh,
            ).1 == DecryptOutcome::Plaintext(plaintext),
{
    let e = Encrypted { nonce: res.nonce, ciphertext: res.ciphertext };
    let h = header_data_fields(res.header);
    assert forall|fresh: Seq<u8>| #[trigger] decrypt_spec(receiver, h, e, fresh).1 == DecryptOutcome::Plaintext(plaintext) by {
        if reads_same_chain(sender, receiver) {
            lemma_same_chain_message_delivered(sender, receiver, plaintext, e, fresh);
        } else {
            lemma_new_chain_message_delivered(sender, receiver, plaintext, e, fresh);
        }
    }
    lemma_stage_of_decrypt(receiver, h, e, Seq::empty());
}

/// Remove the session under `handle`; returns whether there was one.
pub fn destroy_session(store: &mut SessionStore, session_handle: u32) -> (r: bool)
    ensures
        !old(store).has_wrapped() ==> session_handles_fresh(*old(store)),
        !final(store).has_wrapped() ==> session_handles_fresh(*final(store)),
        final(store).has_wrapped() == old(store).has_wrapped(),
        session_handles_fresh(*old(store)) ==> session_handles_fresh(*final(store)),
        r == old(store).sessions().contains_key(session_handle),
        final(store).sessions() == old(store).sessions().remove(session_handle),
        final(store).next_handle() == old(store).next_handle(),
{
    proof {
        use_type_invariant(&*store);
    }
    let removed = store.take(session_handle);
    removed.is_some()
}

/// `m` is the rendering of `e`.
pub open spec fn renders(m: Seq<char>, e: CryptoError) -> bool {
    m == e.prefix() + e.detail()
}

/// An MLS key package and its secrets.
pub struct MlsKeyPackageResult {
    /// TLS encoding of the key package, to share.
    pub key_package: Vec<u8>,
    /// The secrets a welcome for it will need; to keep private.
    pub secret_bundle: Vec<u8>,
}

/// Generate an MLS key package for `identity`.
pub fn mls_generate_key_package(identity: Vec<u8>) -> (r: Result<MlsKeyPackageResult, String>)
    ensures
        r matches Ok(res) ==> secret_blob(res.secret_bundle@),
        r matches Err(m) ==> exists|e: CryptoError| #[trigger] key_package_failure(e) && renders(m@, e),
{
    match crate::mls::generate_key_package(identity.as_slice()) {
        Ok(res) => Ok(MlsKeyPackageResult { key_package: res.key_package, secret_bundle: res.secret_bundle }),
        Err(e) => {
            let m = map_err(e);
            assert(key_package_failure(e) && renders(m@, e));
            Err(m)
        },
    }
}

/// MLS group states by handle, and the handle the next state receives. Every stored
/// state is a well-formed group state blob.
pub struct MlsStateStore {
    next_mls_id: u32,
    states: HashMap<u32, Vec<u8>>,
    /// Whether the handle counter has run past `u32::MAX` and started again at 0.
    wrapped: Ghost<bool>,
}

/// The error text for an unknown group handle.
pub open spec fn unknown_group_error(handle: u32) -> Seq<char> {
    "No MLS group with handle "@ + decimal_text(handle as nat)
}

impl MlsStateStore {
    #[verifier::type_invariant]
    spec fn well_formed(self) -> bool {
        &&& forall|h: u32| #[trigger] self.states@.contains_key(h) ==> state_blob(self.states@[h]@)
        &&& !self.wrapped@ ==> forall|h: u32| #[trigger] self.states@.contains_key(h) ==> h < self.next_mls_id
    }

    /// Whether the handle counter has passed `u32::MAX` and started again at 0, after
    /// 2^32 states; only then can a handle be given out twice.
    pub closed spec fn has_wrapped(&self) -> bool {
        self.wrapped@
    }

    /// The handle the next stored state receives.
    pub closed spec fn next_handle(&self) -> u32 {
        self.next_mls_id
    }

    /// The stored group states by handle.
    pub closed spec fn states(&self) -> Map<u32, Seq<u8>> {
        self.states@.map_values(|v: Vec<u8>| v@)
    }

    /// An empty store whose first handle is 1.
    pub fn new() -> (r: Self)
        ensures
            r.next_handle() == 1,
            r.states() == Map::<u32, Seq<u8>>::empty(),
            state_handles_fresh(r),
            !r.has_wrapped(),
    {
        let r = MlsStateStore { next_mls_id: 1, states: HashMap::new(), wrapped: Ghost(false) };
        assert(r.states() =~= Map::<u32, Seq<u8>>::empty());
        r
    }

    fn store(&mut self, state: Vec<u8>) -> (h: u32)
        requires
            state_blob(state@),
        ensures
            h == old(self).next_handle(),
            final(self).next_handle() == following_handle(old(self).next_handle()),
            final(self).states() == old(self).states().insert(h, state@),
            !old(self).has_wrapped() ==> !old(self).states().contains_key(h),
            final(self).has_wrapped() == (old(self).has_wrapped() || old(self).next_handle() == u32::MAX),
    {
        proof {
            use_type_invariant(&*self);
        }
        let handle = self.next_mls_id;
        let ghost state_view = state@;
        let mut states: HashMap<u32, Vec<u8>> = HashMap::new();
        core::mem::swap(&mut states, &mut self.states);
        states.insert(handle, state);
        let next = if handle == u32::MAX {
            0
        } else {
            handle + 1
        };
        let ghost wrapped = self.wrapped@ || handle == u32::MAX;
        *self = MlsStateStore { next_mls_id: next, states, wrapped: Ghost(wrapped) };
        assert(self.states() =~= old(self).states().insert(handle, state_view));
        handle
    }
}

/// Every state in the store is a well-formed group state blob.
pub open spec fn all_states_well_formed(store: MlsStateStore) -> bool {
    forall|h: u32| #[trigger] store.states().contains_key(h) ==> state_blob(store.states()[h])
}

/// What an operation on a stored group does to the store: on success its new state is
/// stored under the next handle, which is returned; otherwise nothing changes. Either
/// way every stored state is a well-formed group state blob.
pub open spec fn stores_result(
    old_store: MlsStateStore,
    new_store: MlsStateStore,
    succeeded: bool,
    handle: u32,
) -> bool {
    &&& all_states_well_formed(new_store)
    &&& state_handles_fresh(old_store) && old_store.next_handle() < u32::MAX ==> state_handles_fresh(new_store)
    &&& !old_store.has_wrapped() ==> state_handles_fresh(old_store)
    &&& !new_store.has_wrapped() ==> state_handles_fresh(new_store)
    &&& new_store.has_wrapped() == (old_store.has_wrapped() || (succeeded && old_store.next_handle() == u32::MAX))
    &&& if succeeded {
        &&& handle == old_store.next_handle()
        &&& new_store.next_handle() == following_handle(old_store.next_handle())
        &&& new_store.states().dom() == old_store.states().dom().insert(handle)
        &&& (forall|h: u32| #[trigger] old_store.states().contains_key(h) && h != handle ==> new_store.states()[h] == old_store.states()[h])
        &&& state_blob(new_store.states()[handle])
    } else {
        &&& new_store.next_handle() == old_store.next_handle()
        &&& new_store.states() == old_store.states()
    }
}


proof fn lemma_stored(old_store: MlsStateStore, new_store: MlsStateStore, handle: u32, blob: Seq<u8>)
    requires
        handle == old_store.next_handle(),
        new_store.next_handle() == following_handle(old_store.next_handle()),
        new_store.states() == old_store.states().insert(handle, blob),
        state_blob(blob),
        all_states_well_formed(new_store),
        new_store.has_wrapped() == (old_store.has_wrapped() || old_store.next_handle() == u32::MAX),
        !old_store.has_wrapped() ==> state_handles_fresh(old_store),
        !new_store.has_wrapped() ==> state_handles_fresh(new_store),
    ensures
        stores_result(old_store, new_store, true, handle),
{
    assert(new_store.states().dom() =~= old_store.states().dom().insert(handle));
}

/// Create an MLS group with `identity` as sole member and store its state.
pub fn mls_create_group(store: &mut MlsStateStore, identity: Vec<u8>) -> (r: Result<MlsCreateGroupResult, String>)
    ensures
        stores_result(*old(store), *final(store), r is Ok, match r {
            Ok(res) => res.handle,
            Err(_) => 0,
        }),
        r matches Err(m) ==> exists|e: CryptoError| #[trigger] create_group_failure(e) && renders(m@, e),
        r matches Ok(res) ==> res.epoch == 0 && res.group_id@.len() == 16,
{
    proof {
        use_type_invariant(&*store);
    }
    match crate::mls::create_group(identity.as_slice()) {
        Ok(res) => {
            let ghost blob = res.group_state@;
            let handle = store.store(res.group_state);
            proof {
                use_type_invariant(&*store);
                lemma_stored(*old(store), *store, handle, blob);
            }
            Ok(MlsCreateGroupResult { handle, group_id: res.group_id, epoch: res.epoch })
        },
        Err(e) => {
            let m = map_err(e);
            assert(create_group_failure(e) && renders(m@, e));
            Err(m)
        },
    }
}

/// A new MLS group's handle, identifier and epoch.
pub struct MlsCreateGroupResult {
    pub handle: u32,
    pub group_id: Vec<u8>,
    pub epoch: u64,
}

/// The result of adding a member: the new state's handle, the commit, the welcome and
/// the epoch.
pub struct MlsAddMemberResult {
    pub handle: u32,
    pub commit: Vec<u8>,
    pub welcome: Vec<u8>,
    pub epoch: u64,
}

/// Add the member of a TLS-encoded key package to the group under `group_handle`.
pub fn mls_add_member(store: &mut MlsStateStore, group_handle: u32, key_package: Vec<u8>) -> (r: Result<MlsAddMemberResult, String>)
    ensures
        r matches Ok(res) ==> res.commit@.len() >= 4 && res.welcome@.len() >= 4,
        stores_result(*old(store), *final(store), r is Ok, match r {
            Ok(res) => res.handle,
            Err(_) => 0,
        }),
        !old(store).states().contains_key(group_handle) ==> (r matches Err(m) && m@ == unknown_group_error(
            group_handle,
        )),
        old(store).states().contains_key(group_handle) ==> (r matches Err(m) ==> exists|e: CryptoError|
            #[trigger] add_member_failure(e) && renders(m@, e) && blob_refusals_only_if(
                e,
                old(store).states()[group_handle],
            )),
        old(store).states().contains_key(group_handle) && !store_decodes(state_store(old(store).states()[group_handle]))
            ==> (r matches Err(m) && exists|e: CryptoError|
            #[trigger] labelled(e, "Serialization error: "@, "invalid base64 "@) && renders(m@, e)),
{
    proof {
        use_type_invariant(&*store);
    }
    let result = match store.states.get(&group_handle) {
        Some(state) => crate::mls::add_member(state.as_slice(), key_package.as_slice()),
        None => {
            return Err(text_with_number("No MLS group with handle ", group_handle as u64));
        },
    };
    match result {
        Ok(res) => {
            let ghost blob = res.group_state@;
            let handle = store.store(res.group_state);
            proof {
                use_type_invariant(&*store);
                lemma_stored(*old(store), *store, handle, blob);
            }
            Ok(MlsAddMemberResult { handle, commit: res.commit, welcome: res.welcome, epoch: res.epoch })
        },
        Err(e) => {
            let m = map_err(e);
            assert(add_member_failure(e) && renders(m@, e) && blob_refusals_only_if(e, old(store).states()[group_handle]));
            proof {
                if labelled(e, "Serialization error: "@, "invalid base64 "@) {
                    assert(labelled(e, "Serialization error: "@, "invalid base64 "@) && renders(m@, e));
                }
            }
            Err(m)
        },
    }
}

/// The result of removing a member: the new state's handle, the commit and the epoch.
pub struct MlsRemoveMemberResult {
    pub handle: u32,
    pub commit: Vec<u8>,
    pub epoch: u64,
}

/// Remove the member at `leaf_index` from the group under `group_handle`.
pub fn mls_remove_member(store: &mut MlsStateStore, group_handle: u32, leaf_index: u32) -> (r: Result<MlsRemoveMemberResult, String>)
    ensures
        r matches Ok(res) ==> res.commit@.len() >= 4,
        stores_result(*old(store), *final(store), r is Ok, match r {
            Ok(res) => res.handle,
            Err(_) => 0,
        }),
        !old(store).states().contains_key(group_handle) ==> (r matches Err(m) && m@ == unknown_group_error(
            group_handle,
        )),
        old(store).states().contains_key(group_handle) ==> (r matches Err(m) ==> exists|e: CryptoError|
            #[trigger] remove_member_failure(e) && renders(m@, e) && blob_refusals_only_if(
                e,
                old(store).states()[group_handle],
            )),
        old(store).states().contains_key(group_handle) && !store_decodes(state_store(old(store).states()[group_handle]))
            ==> (r matches Err(m) && exists|e: CryptoError|
            #[trigger] labelled(e, "Serialization error: "@, "invalid base64 "@) && renders(m@, e)),
{
    proof {
        use_type_invariant(&*store);
    }
    let result = match store.states.get(&group_handle) {
        Some(state) => crate::mls::remove_member(state.as_slice(), leaf_index),
        None => {
            return Err(text_with_number("No MLS group with handle ", group_handle as u64));
        },
    };
    match result {
        Ok(res) => {
            let ghost blob = res.group_state@;
            let handle = store.store(res.group_state);
            proof {
                use_type_invariant(&*store);
                lemma_stored(*old(store), *store, handle, blob);
            }
            Ok(MlsRemoveMemberResult { handle, commit: res.commit, epoch: res.epoch })
        },
        Err(e) => {
            let m = map_err(e);
            assert(remove_member_failure(e) && renders(m@, e) && blob_refusals_only_if(e, old(store).states()[group_handle]));
            proof {
                if labelled(e, "Serialization error: "@, "invalid base64 "@) {
                    assert(labelled(e, "Serialization error: "@, "invalid base64 "@) && renders(m@, e));
                }
            }
            Err(m)
        },
    }
}

/// The result of encrypting for a group: the new state's handle, the ciphertext and the
/// epoch.
pub struct MlsEncryptResult {
    pub handle: u32,
    pub mls_ciphertext: Vec<u8>,
    pub epoch: u64,
}

/// Encrypt `plaintext` for the group under `group_handle`.
pub fn mls_encrypt_message(store: &mut MlsStateStore, group_handle: u32, plaintext: Vec<u8>) -> (r: Result<MlsEncryptResult, String>)
    ensures
        r matches Ok(res) ==> res.mls_ciphertext@.len() >= 4,
        stores_result(*old(store), *final(store), r is Ok, match r {
            Ok(res) => res.handle,
            Err(_) => 0,
        }),
        !old(store).states().contains_key(group_handle) ==> (r matches Err(m) && m@ == unknown_group_error(
            group_handle,
        )),
        old(store).states().contains_key(group_handle) ==> (r matches Err(m) ==> exists|e: CryptoError|
            #[trigger] encrypt_message_failure(e) && renders(m@, e) && blob_refusals_only_if(
                e,
                old(store).states()[group_handle],
            )),
        old(store).states().contains_key(group_handle) && !store_decodes(state_store(old(store).states()[group_handle]))
            ==> (r matches Err(m) && exists|e: CryptoError|
            #[trigger] labelled(e, "Serialization error: "@, "invalid base64 "@) && renders(m@, e)),
{
    proof {
        use_type_invariant(&*store);
    }
    let result = match store.states.get(&group_handle) {
        Some(state) => crate::mls::encrypt_message(state.as_slice(), plaintext.as_slice()),
        None => {
            return Err(text_with_number("No MLS group with handle ", group_handle as u64));
        },
    };
    match result {
        Ok(res) => {
            let ghost blob = res.group_state@;
            let handle = store.store(res.group_state);
            proof {
                use_type_invariant(&*store);
                lemma_stored(*old(store), *store, handle, blob);
            }
            Ok(MlsEncryptResult { handle, mls_ciphertext: res.mls_ciphertext, epoch: res.epoch })
        },
        Err(e) => {
            let m = map_err(e);
            assert(encrypt_message_failure(e) && renders(m@, e) && blob_refusals_only_if(e, old(store).states()[group_handle]));
            proof {
                if labelled(e, "Serialization error: "@, "invalid base64 "@) {
                    assert(labelled(e, "Serialization error: "@, "invalid base64 "@) && renders(m@, e));
                }
            }
            Err(m)
        },
    }
}

/// The result of decrypting a group message: the new state's handle and the
/// application data (empty for a commit or a proposal).
pub struct MlsDecryptResult {
    pub handle: u32,
    pub plaintext: Vec<u8>,
}

/// Process a TLS-encoded message received by the group under `group_handle`.
pub fn mls_decrypt_message(store: &mut MlsStateStore, group_handle: u32, mls_message: Vec<u8>) -> (r: Result<MlsDecryptResult, String>)
    ensures
        stores_result(*old(store), *final(store), r is Ok, match r {
            Ok(res) => res.handle,
            Err(_) => 0,
        }),
        !old(store).states().contains_key(group_handle) ==> (r matches Err(m) && m@ == unknown_group_error(
            group_handle,
        )),
        old(store).states().contains_key(group_handle) ==> (r matches Err(m) ==> exists|e: CryptoError|
            #[trigger] decrypt_message_failure(e) && renders(m@, e) && blob_refusals_only_if(
                e,
                old(store).states()[group_handle],
            )),
        old(store).states().contains_key(group_handle) && !store_decodes(state_store(old(store).states()[group_handle]))
            ==> (r matches Err(m) && exists|e: CryptoError|
            #[trigger] labelled(e, "Serialization error: "@, "invalid base64 "@) && renders(m@, e)),
{
    proof {
        use_type_invariant(&*store);
    }
    let result = match store.states.get(&group_handle) {
        Some(state) => crate::mls::decrypt_message(state.as_slice(), mls_message.as_slice()),
        None => {
            return Err(text_with_number("No MLS group with handle ", group_handle as u64));
        },
    };
    match result {
        Ok(res) => {
            let ghost blob = res.group_state@;
            let handle = store.store(res.group_state);
            proof {
                use_type_invariant(&*store);
                lemma_stored(*old(store), *store, handle, blob);
            }
            Ok(MlsDecryptResult { handle, plaintext: res.plaintext })
        },
        Err(e) => {
            let m = map_err(e);
            assert(decrypt_message_failure(e) && renders(m@, e) && blob_refusals_only_if(e, old(store).states()[group_handle]));
            proof {
                if labelled(e, "Serialization error: "@, "invalid base64 "@) {
                    assert(labelled(e, "Serialization error: "@, "invalid base64 "@) && renders(m@, e));
                }
            }
            Err(m)
        },
    }
}

/// The result of joining through a welcome: the state's handle, the group's identifier
/// and the epoch.
pub struct MlsProcessWelcomeResult {
    pub handle: u32,
    pub group_id: Vec<u8>,
    pub epoch: u64,
}

/// Join a group through a TLS-encoded welcome and store its state.
pub fn mls_process_welcome(store: &mut MlsStateStore, welcome: Vec<u8>, secret_bundle: Vec<u8>) -> (r: Result<MlsProcessWelcomeResult, String>)
    ensures
        stores_result(*old(store), *final(store), r is Ok, match r {
            Ok(res) => res.handle,
            Err(_) => 0,
        }),
        r matches Err(m) ==> exists|e: CryptoError|
            #[trigger] process_welcome_failure(e) && renders(m@, e) && secret_refusals_only_if(e, secret_bundle@),
        !secret_blob(secret_bundle@) ==> (r matches Err(m) && m@ == "Serialization error: "@
            + malformed_secrets_text()),
        secret_blob(secret_bundle@) && !store_decodes(secret_store(secret_bundle@)) ==> (r matches Err(m)
            && exists|e: CryptoError|
            #[trigger] labelled(e, "Serialization error: "@, "invalid base64 "@) && renders(m@, e)),
{
    proof {
        use_type_invariant(&*store);
    }
    match crate::mls::process_welcome(welcome.as_slice(), secret_bundle.as_slice()) {
        Ok(res) => {
            let ghost blob = res.group_state@;
            let handle = store.store(res.group_state);
            proof {
                use_type_invariant(&*store);
                lemma_stored(*old(store), *store, handle, blob);
            }
            Ok(MlsProcessWelcomeResult { handle, group_id: res.group_id, epoch: res.epoch })
        },
        Err(e) => {
            let m = map_err(e);
            assert(process_welcome_failure(e) && renders(m@, e) && secret_refusals_only_if(e, secret_bundle@));
            proof {
                if labelled(e, "Serialization error: "@, "invalid base64 "@) {
                    assert(labelled(e, "Serialization error: "@, "invalid base64 "@) && renders(m@, e));
                }
            }
            Err(m)
        },
    }
}

/// The result of processing a commit: the new state's handle and the epoch.
pub struct MlsProcessCommitResult {
    pub handle: u32,
    pub epoch: u64,
}

/// Process a TLS-encoded commit for the group under `group_handle`.
pub fn mls_process_commit(store: &mut MlsStateStore, group_handle: u32, commit: Vec<u8>) -> (r: Result<MlsProcessCommitResult, String>)
    ensures
        stores_result(*old(store), *final(store), r is Ok, match r {
            Ok(res) => res.handle,
            Err(_) => 0,
        }),
        !old(store).states().contains_key(group_handle) ==> (r matches Err(m) && m@ == unknown_group_error(
            group_handle,
        )),
        old(store).states().contains_key(group_handle) ==> (r matches Err(m) ==> exists|e: CryptoError|
            #[trigger] process_commit_failure(e) && renders(m@, e) && blob_refusals_only_if(
                e,
                old(store).states()[group_handle],
            )),
        old(store).states().contains_key(group_handle) && !store_decodes(state_store(old(store).states()[group_handle]))
            ==> (r matches Err(m) && exists|e: CryptoError|
            #[trigger] labelled(e, "Serialization error: "@, "invalid base64 "@) && renders(m@, e)),
{
    proof {
        use_type_invariant(&*store);
    }
    let result = match store.states.get(&group_handle) {
        Some(state) => crate::mls::process_commit(state.as_slice(), commit.as_slice()),
        None => {
            return Err(text_with_number("No MLS group with handle ", group_handle as u64));
        },
    };
    match result {
        Ok(res) => {
            let ghost blob = res.group_state@;
            let handle = store.store(res.group_state);
            proof {
                use_type_invariant(&*store);
                lemma_stored(*old(store), *store, handle, blob);
            }
            Ok(MlsProcessCommitResult { handle, epoch: res.epoch })
        },
        Err(e) => {
            let m = map_err(e);
            assert(process_commit_failure(e) && renders(m@, e) && blob_refusals_only_if(e, old(store).states()[group_handle]));
            proof {
                if labelled(e, "Serialization error: "@, "invalid base64 "@) {
                    assert(labelled(e, "Serialization error: "@, "invalid base64 "@) && renders(m@, e));
                }
            }
            Err(m)
        },
    }
}

/// Remove the group state under `group_handle`; returns whether there was one.
pub fn mls_destroy_state(store: &mut MlsStateStore, group_handle: u32) -> (r: bool)
    ensures
        !old(store).has_wrapped() ==> state_handles_fresh(*old(store)),
        !final(store).has_wrapped() ==> state_handles_fresh(*final(store)),
        final(store).has_wrapped() == old(store).has_wrapped(),
        state_handles_fresh(*old(store)) ==> state_handles_fresh(*final(store)),
        r == old(store).states().contains_key(group_handle),
        final(store).states() == old(store).states().remove(group_handle),
        final(store).next_handle() == old(store).next_handle(),
{
    proof {
        use_type_invariant(&*store);
    }
    let mut states: HashMap<u32, Vec<u8>> = HashMap::new();
    core::mem::swap(&mut states, &mut store.states);
    let removed = states.remove(&group_handle);
    let next = store.next_mls_id;
    let ghost wrapped = store.wrapped@;
    *store = MlsStateStore { next_mls_id: next, states, wrapped: Ghost(wrapped) };
    assert(store.states() =~= old(store).states().remove(group_handle));
    removed.is_some()
}

} // verus!
