//! Authenticated encryption with AES-256-GCM and random 96-bit nonces.

use vstd::prelude::*;
use aes_gcm::aead::{Aead, AeadCore, KeyInit};

use crate::error::{CryptoError, Result};

verus! {

/// The largest plaintext and associated-data length AES-GCM accepts (2^36 bytes).
pub const AEAD_MAX_INPUT: u64 = 68719476736u64;

/// The length in bytes of an AES-GCM nonce.
pub const NONCE_LEN: usize = 12;

/// An AEAD ciphertext together with the nonce it was sealed under.
#[derive(Debug, Clone)]
pub struct Encrypted {
    pub nonce: Vec<u8>,
    pub ciphertext: Vec<u8>,
}

/// The AES-256-GCM ciphertext (with its 16-byte tag appended) of `plaintext`.
pub uninterp spec fn aes256gcm_seal(key: Seq<u8>, nonce: Seq<u8>, plaintext: Seq<u8>, aad: Seq<u8>) -> Seq<u8>;

/// The AES-256-GCM opening of `ciphertext`: the plaintext, or `None` when the tag does
/// not authenticate.
pub uninterp spec fn aes256gcm_open(key: Seq<u8>, nonce: Seq<u8>, ciphertext: Seq<u8>, aad: Seq<u8>) -> Option<Seq<u8>>;

/// What [`decrypt`] yields for `encrypted` under `key` and `associated_data`:
/// the plaintext, or `None` for an authentication failure.
pub open spec fn opened(key: Seq<u8>, encrypted: Encrypted, associated_data: Seq<u8>) -> Option<Seq<u8>> {
    aes256gcm_open(key, encrypted.nonce@, encrypted.ciphertext@, associated_data)
}

#[verifier::external_type_specification]
#[verifier::external_body]
pub struct ExAeadError(aes_gcm::Error);

/// `Aes256Gcm::generate_nonce(&mut OsRng)`: a random 12-byte nonce; only its length is claimed.
#[verifier::external_body]
fn aes256gcm_random_nonce() -> (r: Vec<u8>)
    ensures
        r@.len() == NONCE_LEN,
{
    aes_gcm::Aes256Gcm::generate_nonce(&mut aes_gcm::aead::OsRng).to_vec()
}

/// `Aes256Gcm::encrypt` with a `Payload { msg, aad }`: fails exactly when the plaintext
/// or the associated data is longer than 2^36 bytes; otherwise the result is the named
/// ciphertext, 16 bytes longer than the plaintext, and it opens (under the same key, nonce
/// and associated data) to the plaintext.
#[verifier::external_body]
fn aes256gcm_encrypt(key: &[u8; 32], nonce: &[u8], plaintext: &[u8], aad: &[u8]) -> (r: core::result::Result<Vec<u8>, aes_gcm::Error>)
    requires
        nonce@.len() == NONCE_LEN,
    ensures
        r is Ok <==> (plaintext@.len() <= AEAD_MAX_INPUT && aad@.len() <= AEAD_MAX_INPUT),
        r matches Ok(c) ==> c@ == aes256gcm_seal(key@, nonce@, plaintext@, aad@),
        r matches Ok(c) ==> c@.len() == plaintext@.len() + 16,
        r matches Ok(c) ==> aes256gcm_open(key@, nonce@, c@, aad@) == Some(plaintext@),
{
    let cipher = aes_gcm::Aes256Gcm::new(key.into());
    cipher.encrypt(aes_gcm::Nonce::from_slice(nonce), aes_gcm::aead::Payload { msg: plaintext, aad })
}

/// `Aes256Gcm::decrypt` with a `Payload { msg, aad }`: the result is the named opening.
#[verifier::external_body]
fn aes256gcm_decrypt(key: &[u8; 32], nonce: &[u8], ciphertext: &[u8], aad: &[u8]) -> (r: core::result::Result<Vec<u8>, aes_gcm::Error>)
    requires
        nonce@.len() == NONCE_LEN,
    ensures
        r matches Ok(p) ==> aes256gcm_open(key@, nonce@, ciphertext@, aad@) == Some(p@),
        r is Err ==> aes256gcm_open(key@, nonce@, ciphertext@, aad@) is None,
{
    let cipher = aes_gcm::Aes256Gcm::new(key.into());
    cipher.decrypt(aes_gcm::Nonce::from_slice(nonce), aes_gcm::aead::Payload { msg: ciphertext, aad })
}

/// Encrypt `plaintext` under `key`, authenticating `associated_data`, with a fresh
/// random nonce. Succeeds unless an input is longer than AES-GCM allows; the output
/// decrypts (under the same key and associated data) to the plaintext.
pub fn encrypt(key: &[u8; 32], plaintext: &[u8], associated_data: &[u8]) -> (r: Result<Encrypted>)
    ensures
        r is Ok <==> (plaintext@.len() <= AEAD_MAX_INPUT && associated_data@.len()
            <= AEAD_MAX_INPUT),
        r matches Ok(e) ==> e.nonce@.len() == NONCE_LEN && e.ciphertext@ == aes256gcm_seal(
            key@,
            e.nonce@,
            plaintext@,
            associated_data@,
        ) && e.ciphertext@.len() == plaintext@.len() + 16,
        r matches Ok(e) ==> opened(key@, e, associated_data@) == Some(plaintext@),
        r matches Err(e) ==> (e matches CryptoError::Encryption(m) && m@ == "Encryption failed: aead::Error"@),
{
    let nonce = aes256gcm_random_nonce();
    match aes256gcm_encrypt(key, nonce.as_slice(), plaintext, associated_data) {
        Ok(ciphertext) => Ok(Encrypted { nonce, ciphertext }),
        Err(_) => Err(CryptoError::Encryption(String::from_str("Encryption failed: aead::Error"))),
    }
}

/// Decrypt and authenticate `encrypted` under `key` and `associated_data`.
/// Fails with a decryption error exactly when authentication fails.
pub fn decrypt(key: &[u8; 32], encrypted: &Encrypted, associated_data: &[u8]) -> (r: Result<Vec<u8>>)
    requires
        encrypted.nonce@.len() == NONCE_LEN,
    ensures
        opened(key@, *encrypted, associated_data@) is Some ==> (r matches Ok(p) && opened(
            key@,
            *encrypted,
            associated_data@,
        ) == Some(p@)),
        opened(key@, *encrypted, associated_data@) is None ==> (r matches Err(CryptoError::Decryption(m)) && m@
            == "Decryption failed: aead::Error"@),
{
    match aes256gcm_decrypt(key, encrypted.nonce.as_slice(), encrypted.ciphertext.as_slice(), associated_data) {
        Ok(p) => Ok(p),
        Err(_) => Err(CryptoError::Decryption(String::from_str("Decryption failed: aead::Error"))),
    }
}

} // verus!
