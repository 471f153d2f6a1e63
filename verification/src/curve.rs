//! Elliptic-curve primitives (X25519 key agreement and Ed25519 signatures)
//! and the operating system's randomness, as plain byte values.

use vstd::prelude::*;
use ed25519_dalek::{Signer, Verifier};

verus! {

/// The X25519 public key (32 bytes) of a 32-byte secret.
pub uninterp spec fn x25519_public_of(secret: Seq<u8>) -> Seq<u8>;

/// The X25519 shared secret (32 bytes) of a 32-byte secret and a 32-byte public key.
pub uninterp spec fn x25519_shared(secret: Seq<u8>, public: Seq<u8>) -> Seq<u8>;

/// The Ed25519 verifying key (32 bytes) of a 32-byte signing key.
pub uninterp spec fn ed25519_public_of(signing_key: Seq<u8>) -> Seq<u8>;

/// The Ed25519 signature (64 bytes) of a message under a 32-byte signing key.
pub uninterp spec fn ed25519_signature(signing_key: Seq<u8>, message: Seq<u8>) -> Seq<u8>;

/// Whether a 64-byte signature over a message verifies under a 32-byte verifying key
/// (false when the key bytes do not decode to a curve point).
pub uninterp spec fn ed25519_verifies(verifying_key: Seq<u8>, message: Seq<u8>, signature: Seq<u8>) -> bool;

/// Whether 32 bytes decode to an Ed25519 verifying key.
pub uninterp spec fn ed25519_key_decodes(bytes: Seq<u8>) -> bool;

/// `x25519_dalek::PublicKey::from(&StaticSecret::from(secret))`: claims only that the
/// result is the named public key of the secret.
#[verifier::external_body]
pub(crate) fn x25519_public(secret: &[u8; 32]) -> (r: [u8; 32])
    ensures
        r@ == x25519_public_of(secret@),
{
    x25519_dalek::PublicKey::from(&x25519_dalek::StaticSecret::from(*secret)).to_bytes()
}

/// `x25519_dalek::StaticSecret::diffie_hellman`: the result is the named shared secret,
/// and (Diffie-Hellman agreement) whenever `public` is the public key of some secret `t`,
/// it equals what `t` computes with this secret's public key.
#[verifier::external_body]
pub(crate) fn x25519_diffie_hellman(secret: &[u8; 32], public: &[u8; 32]) -> (r: [u8; 32])
    ensures
        r@ == x25519_shared(secret@, public@),
        forall|t: Seq<u8>|
            t.len() == 32 && #[trigger] x25519_public_of(t) == public@ ==> r@ == x25519_shared(
                t,
                x25519_public_of(secret@),
            ),
{
    let s = x25519_dalek::StaticSecret::from(*secret);
    s.diffie_hellman(&x25519_dalek::PublicKey::from(*public)).to_bytes()
}

/// `x25519_dalek::StaticSecret::random_from_rng(OsRng)`, returned as its bytes.
/// Nothing is claimed of the value: it is random.
#[verifier::external_body]
pub(crate) fn x25519_random_secret() -> (r: [u8; 32]) {
    x25519_dalek::StaticSecret::random_from_rng(rand::rngs::OsRng).to_bytes()
}

/// `rand::RngCore::fill_bytes` on `OsRng` with a 32-byte buffer. Nothing is claimed of
/// the value: it is random.
#[verifier::external_body]
pub(crate) fn os_random_32() -> (r: [u8; 32]) {
    let mut buf = [0u8; 32];
    rand::RngCore::fill_bytes(&mut rand::rngs::OsRng, &mut buf);
    buf
}

/// `ed25519_dalek::SigningKey::generate(&mut OsRng)`, returned as its 32 secret bytes.
/// Nothing is claimed of the value: it is random.
#[verifier::external_body]
pub(crate) fn ed25519_random_signing_key() -> (r: [u8; 32]) {
    ed25519_dalek::SigningKey::generate(&mut rand::rngs::OsRng).to_bytes()
}

/// `ed25519_dalek::SigningKey::verifying_key`: the result is the named verifying key; it
/// is built from a valid curve point, so its bytes decode as a verifying key again.
#[verifier::external_body]
pub(crate) fn ed25519_verifying_key(signing_key: &[u8; 32]) -> (r: [u8; 32])
    ensures
        r@ == ed25519_public_of(signing_key@),
        ed25519_key_decodes(r@),
{
    ed25519_dalek::SigningKey::from_bytes(signing_key).verifying_key().to_bytes()
}

/// `ed25519_dalek::SigningKey::sign`: the result is the named signature, and (Ed25519
/// correctness) it verifies under the signing key's own verifying key.
#[verifier::external_body]
pub(crate) fn ed25519_sign(signing_key: &[u8; 32], message: &[u8]) -> (r: [u8; 64])
    ensures
        r@ == ed25519_signature(signing_key@, message@),
        ed25519_verifies(ed25519_public_of(signing_key@), message@, r@),
{
    ed25519_dalek::SigningKey::from_bytes(signing_key).sign(message).to_bytes()
}

/// `ed25519_dalek::VerifyingKey::verify` after `VerifyingKey::from_bytes` and
/// `Signature::from_bytes`: the result is the named verification outcome.
#[verifier::external_body]
pub(crate) fn ed25519_verify(verifying_key: &[u8; 32], message: &[u8], signature: &[u8; 64]) -> (r: bool)
    ensures
        r == ed25519_verifies(verifying_key@, message@, signature@),
{
    match ed25519_dalek::VerifyingKey::from_bytes(verifying_key) {
        Ok(k) => k.verify(message, &ed25519_dalek::Signature::from_bytes(signature)).is_ok(),
        Err(_) => false,
    }
}

/// `ed25519_dalek::VerifyingKey::from_bytes(..).is_ok()`: the result is the named
/// decoding outcome.
#[verifier::external_body]
pub(crate) fn ed25519_decodes(bytes: &[u8; 32]) -> (r: bool)
    ensures
        r == ed25519_key_decodes(bytes@),
{
    ed25519_dalek::VerifyingKey::from_bytes(bytes).is_ok()
}

/// An X25519 public key.
#[derive(Debug, Clone, Copy)]
pub struct PublicKey {
    pub bytes: [u8; 32],
}

impl View for PublicKey {
    type V = Seq<u8>;

    open spec fn view(&self) -> Seq<u8> {
        self.bytes@
    }
}

impl PublicKey {
    /// A public key from its 32 bytes.
    pub fn from_bytes(bytes: [u8; 32]) -> (r: PublicKey)
        ensures
            r@ == bytes@,
    {
        PublicKey { bytes }
    }

    /// The 32 bytes of the key.
    pub fn as_bytes(&self) -> (r: &[u8; 32])
        ensures
            r@ == self@,
    {
        &self.bytes
    }

    /// A copy of the 32 bytes of the key.
    pub fn to_bytes(&self) -> (r: [u8; 32])
        ensures
            r@ == self@,
    {
        self.bytes
    }
}

/// The output of an X25519 key agreement.
#[derive(Debug, Clone, Copy)]
pub struct SharedSecret {
    pub bytes: [u8; 32],
}

impl View for SharedSecret {
    type V = Seq<u8>;

    open spec fn view(&self) -> Seq<u8> {
        self.bytes@
    }
}

impl SharedSecret {
    /// The 32 bytes of the shared secret.
    pub fn as_bytes(&self) -> (r: &[u8; 32])
        ensures
            r@ == self@,
    {
        &self.bytes
    }
}

/// Perform X25519 key agreement between `secret` and `public`. Besides the value, the
/// result carries Diffie-Hellman agreement: whenever `public` is the public key of a
/// secret `t`, it equals what `t` computes with the public key of `secret`.
pub fn diffie_hellman(secret: &[u8; 32], public: &PublicKey) -> (r: SharedSecret)
    ensures
        r@ == x25519_shared(secret@, public@),
        forall|t: Seq<u8>|
            t.len() == 32 && #[trigger] x25519_public_of(t) == public@ ==> r@ == x25519_shared(
                t,
                x25519_public_of(secret@),
            ),
{
    SharedSecret { bytes: x25519_diffie_hellman(secret, &public.bytes) }
}

/// The X25519 public key of `secret`.
pub fn public_key_of(secret: &[u8; 32]) -> (r: PublicKey)
    ensures
        r@ == x25519_public_of(secret@),
{
    PublicKey { bytes: x25519_public(secret) }
}

/// An Ed25519 verifying (public) key.
#[derive(Debug, Clone, Copy)]
pub struct VerifyingKey {
    pub bytes: [u8; 32],
}

impl View for VerifyingKey {
    type V = Seq<u8>;

    open spec fn view(&self) -> Seq<u8> {
        self.bytes@
    }
}

impl VerifyingKey {
    /// Decode a verifying key from its 32 bytes; `None` when they are not a curve point.
    pub fn from_bytes(bytes: &[u8; 32]) -> (r: Option<VerifyingKey>)
        ensures
            ed25519_key_decodes(bytes@) ==> (r matches Some(k) && k@ == bytes@),
            !ed25519_key_decodes(bytes@) ==> r is None,
    {
        if ed25519_decodes(bytes) {
            Some(VerifyingKey { bytes: *bytes })
        } else {
            None
        }
    }

    /// The 32 bytes of the key.
    pub fn as_bytes(&self) -> (r: &[u8; 32])
        ensures
            r@ == self@,
    {
        &self.bytes
    }

    /// A copy of the 32 bytes of the key.
    pub fn to_bytes(&self) -> (r: [u8; 32])
        ensures
            r@ == self@,
    {
        self.bytes
    }
}

} // verus!
