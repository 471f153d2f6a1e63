//! Key derivation: HKDF-SHA256 and the symmetric-ratchet chain step (HMAC-SHA256).

use vstd::prelude::*;
use hmac::Mac;

use crate::error::{CryptoError, Result};

verus! {

/// The largest output HKDF-SHA256 can expand to: 255 blocks of 32 bytes.
pub const HKDF_MAX_OUTPUT: usize = 8160;

/// The HKDF-SHA256 output (extract with `salt`, then expand with `info`) of `length` bytes.
pub uninterp spec fn hkdf_sha256(ikm: Seq<u8>, salt: Seq<u8>, info: Seq<u8>, length: nat) -> Seq<u8>;

/// The HMAC-SHA256 tag (32 bytes) of `data` under `key`.
pub uninterp spec fn hmac_sha256_tag(key: Seq<u8>, data: Seq<u8>) -> Seq<u8>;

/// The chain key that follows `chain_key` in a symmetric ratchet: HMAC(chain_key, 0x01).
pub open spec fn next_chain_key(chain_key: Seq<u8>) -> Seq<u8> {
    hmac_sha256_tag(chain_key, seq![1u8])
}

/// The message key that `chain_key` yields: HMAC(chain_key, 0x02).
pub open spec fn message_key_of(chain_key: Seq<u8>) -> Seq<u8> {
    hmac_sha256_tag(chain_key, seq![2u8])
}

#[verifier::external_type_specification]
#[verifier::external_body]
pub struct ExHkdfInvalidLength(hkdf::InvalidLength);

#[verifier::external_type_specification]
#[verifier::external_body]
pub struct ExMacInvalidLength(hmac::digest::InvalidLength);

/// `hkdf::Hkdf::<Sha256>::new(Some(salt), ikm)` followed by `expand(info, okm)`: the
/// expansion fails exactly when `okm` is longer than 255 hash blocks, and then leaves
/// `okm` untouched; otherwise `okm` holds the named HKDF output of its length.
#[verifier::external_body]
fn hkdf_sha256_expand(ikm: &[u8], salt: &[u8], info: &[u8], okm: &mut Vec<u8>) -> (r: core::result::Result<(), hkdf::InvalidLength>)
    ensures
        final(okm)@.len() == old(okm)@.len(),
        r is Ok <==> old(okm)@.len() <= HKDF_MAX_OUTPUT,
        r is Ok ==> final(okm)@ == hkdf_sha256(ikm@, salt@, info@, old(okm)@.len()),
        r is Err ==> final(okm)@ == old(okm)@,
{
    hkdf::Hkdf::<sha2::Sha256>::new(Some(salt), ikm).expand(info, okm.as_mut_slice())
}

/// `hmac::Hmac::<Sha256>::new_from_slice(key)`, `update(data)`, `finalize()`: HMAC accepts
/// keys of any length, so the result is always the named 32-byte tag.
#[verifier::external_body]
fn hmac_sha256_mac(key: &[u8], data: &[u8]) -> (r: core::result::Result<Vec<u8>, hmac::digest::InvalidLength>)
    ensures
        r is Ok,
        r matches Ok(t) ==> t@ == hmac_sha256_tag(key@, data@) && t@.len() == 32,
{
    let mut mac = hmac::Hmac::<sha2::Sha256>::new_from_slice(key)?;
    mac.update(data);
    Ok(mac.finalize().into_bytes().to_vec())
}

/// Derive `length` bytes of key material with HKDF-SHA256.
pub fn derive(ikm: &[u8], salt: &[u8], info: &[u8], length: usize) -> (r: Result<Vec<u8>>)
    ensures
        length <= HKDF_MAX_OUTPUT ==> (r matches Ok(v) && v@ == hkdf_sha256(
            ikm@,
            salt@,
            info@,
            length as nat,
        ) && v@.len() == length),
        length > HKDF_MAX_OUTPUT ==> r matches Err(CryptoError::KeyGeneration(_)),
{
    let mut output: Vec<u8> = vec![0u8; length];
    match hkdf_sha256_expand(ikm, salt, info, &mut output) {
        Ok(()) => Ok(output),
        Err(_) => Err(
            CryptoError::KeyGeneration(
                String::from_str("HKDF expand failed: invalid number of blocks, too large output"),
            ),
        ),
    }
}

/// Derive the next chain key and the message key from a chain key
/// (the symmetric-ratchet step of the Double Ratchet).
pub fn derive_chain_and_message_key(chain_key: &[u8]) -> (r: Result<(Vec<u8>, Vec<u8>)>)
    ensures
        r matches Ok((c, m)) && c@ == next_chain_key(chain_key@) && m@ == message_key_of(
            chain_key@,
        ) && c@.len() == 32 && m@.len() == 32,
{
    let one: [u8; 1] = [1u8];
    let two: [u8; 1] = [2u8];
    assert(one@ =~= seq![1u8]);
    assert(two@ =~= seq![2u8]);
    let new_chain_key = hmac_sha256(chain_key, &one)?;
    let message_key = hmac_sha256(chain_key, &two)?;
    Ok((new_chain_key, message_key))
}

fn hmac_sha256(key: &[u8], data: &[u8]) -> (r: Result<Vec<u8>>)
    ensures
        r matches Ok(t) && t@ == hmac_sha256_tag(key@, data@) && t@.len() == 32,
{
    match hmac_sha256_mac(key, data) {
        Ok(t) => Ok(t),
        Err(_) => Err(CryptoError::KeyGeneration(String::from_str("HMAC key error: Invalid Length"))),
    }
}

} // verus!
