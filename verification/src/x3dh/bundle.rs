use vstd::prelude::*;

use crate::curve::{PublicKey, VerifyingKey};

verus! {

/// A pre-key bundle fetched from the server for initiating X3DH.
#[derive(Clone)]
pub struct PreKeyBundle {
    pub identity_key: PublicKey,
    /// Ed25519 verifying key of the bundle owner's identity, which authenticates the
    /// signed pre-key.
    pub identity_verifying_key: VerifyingKey,
    pub signed_pre_key: PublicKey,
    pub signature: Vec<u8>,
    pub one_time_pre_key: Option<PublicKey>,
}

/// Result of an X3DH key exchange.
pub struct X3DHResult {
    /// The derived shared secret (32 bytes).
    pub shared_secret: Vec<u8>,
    /// The initiator's ephemeral public key.
    pub ephemeral_key: PublicKey,
}

/// The bytes of an optional public key.
pub open spec fn optional_key_bytes(key: Option<PublicKey>) -> Option<Seq<u8>> {
    match key {
        Some(k) => Some(k@),
        None => None,
    }
}

} // verus!
