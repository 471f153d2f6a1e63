//! The Diffie-Hellman ratchet step: mix a DH output into the root key.

use vstd::prelude::*;

use crate::bytes::to_vec;
use crate::curve::{diffie_hellman, public_key_of, x25519_public_of, x25519_random_secret, x25519_shared, PublicKey};
use crate::error::Result;
use crate::kdf::hkdf_sha256;

verus! {

/// The HKDF info of a ratchet step: the ASCII text "GhostCrypt_Ratchet".
pub open spec fn ratchet_info() -> Seq<u8> {
    seq![71u8, 104u8, 111u8, 115u8, 116u8, 67u8, 114u8, 121u8, 112u8, 116u8, 95u8, 82u8, 97u8, 116u8, 99u8, 104u8, 101u8, 116u8]
}

/// A ratchet step: 64 bytes of HKDF output (DH output as input key material, root key as
/// salt), split into the new root key (first 32) and the new chain key (last 32).
pub open spec fn ratchet_step(root_key: Seq<u8>, dh_output: Seq<u8>) -> (Seq<u8>, Seq<u8>) {
    let derived = hkdf_sha256(dh_output, root_key, ratchet_info(), 64);
    (derived.subrange(0, 32), derived.subrange(32, 64))
}

fn ratchet_info_bytes() -> (r: [u8; 18])
    ensures
        r@ == ratchet_info(),
{
    let a: [u8; 18] = [71u8, 104u8, 111u8, 115u8, 116u8, 67u8, 114u8, 121u8, 112u8, 116u8, 95u8, 82u8, 97u8, 116u8, 99u8, 104u8, 101u8, 116u8];
    assert(a@ =~= ratchet_info());
    a
}

/// Perform a DH ratchet step from the current root key and a DH output, returning
/// (new root key, new chain key). Always succeeds.
pub fn dh_ratchet_step(root_key: &[u8], dh_output: &[u8]) -> (r: Result<(Vec<u8>, Vec<u8>)>)
    ensures
        r matches Ok((rk, ck)) && (rk@, ck@) == ratchet_step(root_key@, dh_output@),
        r matches Ok((rk, ck)) && rk@.len() == 32 && ck@.len() == 32,
{
    let info = ratchet_info_bytes();
    let derived = crate::kdf::derive(dh_output, root_key, &info, 64)?;
    let new_root_key = to_vec(vstd::slice::slice_subrange(derived.as_slice(), 0, 32));
    let new_chain_key = to_vec(vstd::slice::slice_subrange(derived.as_slice(), 32, 64));
    Ok((new_root_key, new_chain_key))
}

/// Generate a new random X25519 keypair for the DH ratchet: (secret, public key).
pub fn generate_dh_keypair() -> (r: ([u8; 32], PublicKey))
    ensures
        r.1@ == x25519_public_of(r.0@),
{
    let secret = x25519_random_secret();
    let public = public_key_of(&secret);
    (secret, public)
}

/// X25519 Diffie-Hellman with our secret and their public key.
pub fn dh(our_secret: &[u8; 32], their_public: &PublicKey) -> (r: Vec<u8>)
    ensures
        r@ == x25519_shared(our_secret@, their_public@),
        forall|t: Seq<u8>|
            t.len() == 32 && #[trigger] x25519_public_of(t) == their_public@ ==> r@
                == x25519_shared(t, x25519_public_of(our_secret@)),
{
    let shared = diffie_hellman(our_secret, their_public);
    to_vec(shared.as_bytes())
}

} // verus!
