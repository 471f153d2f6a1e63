//! Long-term identity keys, signed pre-keys, one-time pre-keys and public key bundles.

use vstd::prelude::*;

use crate::bytes::{array32_from_slice, array64_from_slice, decimal_text, text_with_number, to_vec};
use crate::curve::{
    diffie_hellman, ed25519_key_decodes, ed25519_public_of, ed25519_random_signing_key, ed25519_sign,
    ed25519_signature, ed25519_verifies, ed25519_verify, ed25519_verifying_key, os_random_32,
    public_key_of, x25519_public_of, x25519_shared, PublicKey, SharedSecret, VerifyingKey,
};
use crate::error::{CryptoError, Result};

verus! {

/// An identity keypair: an X25519 secret for Diffie-Hellman key agreement and an
/// Ed25519 signing key for signatures, with their public keys.
pub struct IdentityKeyPair {
    secret_seed: [u8; 32],
    x25519_public: PublicKey,
    signing_key: [u8; 32],
    verifying_key: VerifyingKey,
}

impl IdentityKeyPair {
    #[verifier::type_invariant]
    spec fn public_keys_match(self) -> bool {
        &&& self.x25519_public@ == x25519_public_of(self.secret_seed@)
        &&& self.verifying_key@ == ed25519_public_of(self.signing_key@)
        &&& ed25519_key_decodes(self.verifying_key@)
    }

    /// The X25519 secret (32 bytes).
    pub closed spec fn secret_seed(&self) -> Seq<u8> {
        self.secret_seed@
    }

    /// The Ed25519 signing key (32 bytes).
    pub closed spec fn signing_seed(&self) -> Seq<u8> {
        self.signing_key@
    }

    /// Both secrets are 32 bytes long.
    pub proof fn lemma_secret_lengths(&self)
        ensures
            self.secret_seed().len() == 32,
            self.signing_seed().len() == 32,
    {
    }

    fn from_seeds(secret_seed: [u8; 32], signing_key: [u8; 32]) -> (r: Self)
        ensures
            r.secret_seed() == secret_seed@,
            r.signing_seed() == signing_key@,
    {
        let x25519_public = public_key_of(&secret_seed);
        let verifying_key = VerifyingKey { bytes: ed25519_verifying_key(&signing_key) };
        IdentityKeyPair { secret_seed, x25519_public, signing_key, verifying_key }
    }

    /// Generate a new random identity keypair.
    pub fn generate() -> (r: Self) {
        let secret_seed = os_random_32();
        let signing_key = ed25519_random_signing_key();
        Self::from_seeds(secret_seed, signing_key)
    }

    /// The X25519 secret bytes, for export to secure storage.
    pub fn secret_bytes(&self) -> (r: [u8; 32])
        ensures
            r@ == self.secret_seed(),
    {
        self.secret_seed
    }

    /// The Ed25519 signing key bytes, for export to secure storage.
    pub fn signing_secret_bytes(&self) -> (r: [u8; 32])
        ensures
            r@ == self.signing_seed(),
    {
        self.signing_key
    }

    /// Rebuild a keypair from exported secrets; each must be exactly 32 bytes.
    pub fn from_bytes(identity_secret: &[u8], signing_secret: &[u8]) -> (r: Result<Self>)
        ensures
            identity_secret@.len() != 32 ==> (r matches Err(CryptoError::InvalidKey(m)) && m@
                == "identity secret must be 32 bytes, got "@ + decimal_text(
                identity_secret@.len(),
            )),
            identity_secret@.len() == 32 && signing_secret@.len() != 32 ==> (r matches Err(
                CryptoError::InvalidKey(m),
            ) && m@ == "signing secret must be 32 bytes, got "@ + decimal_text(
                signing_secret@.len(),
            )),
            identity_secret@.len() == 32 && signing_secret@.len() == 32 ==> (r matches Ok(k)
                && k.secret_seed() == identity_secret@ && k.signing_seed() == signing_secret@),
    {
        if identity_secret.len() != 32 {
            return Err(
                CryptoError::InvalidKey(
                    text_with_number(
                        "identity secret must be 32 bytes, got ",
                        identity_secret.len() as u64,
                    ),
                ),
            );
        }
        if signing_secret.len() != 32 {
            return Err(
                CryptoError::InvalidKey(
                    text_with_number(
                        "signing secret must be 32 bytes, got ",
                        signing_secret.len() as u64,
                    ),
                ),
            );
        }
        let secret_seed = array32_from_slice(identity_secret);
        let signing_key = array32_from_slice(signing_secret);
        Ok(Self::from_seeds(secret_seed, signing_key))
    }

    /// The X25519 public key.
    pub fn public_key(&self) -> (r: &PublicKey)
        ensures
            r@ == x25519_public_of(self.secret_seed()),
    {
        proof {
            use_type_invariant(self);
        }
        &self.x25519_public
    }

    /// The Ed25519 verifying (public) key.
    pub fn verifying_key(&self) -> (r: VerifyingKey)
        ensures
            r@ == ed25519_public_of(self.signing_seed()),
            ed25519_key_decodes(r@),
    {
        proof {
            use_type_invariant(self);
        }
        self.verifying_key
    }

    /// X25519 key agreement with another party's public key.
    pub fn dh(&self, their_public: &PublicKey) -> (r: SharedSecret)
        ensures
            r@ == x25519_shared(self.secret_seed(), their_public@),
            forall|t: Seq<u8>|
                t.len() == 32 && #[trigger] x25519_public_of(t) == their_public@ ==> r@
                    == x25519_shared(t, x25519_public_of(self.secret_seed())),
    {
        diffie_hellman(&self.secret_seed, their_public)
    }

    /// Sign a message with the Ed25519 signing key; the 64-byte signature verifies
    /// under this keypair's verifying key.
    pub fn sign(&self, message: &[u8]) -> (r: Vec<u8>)
        ensures
            r@ == ed25519_signature(self.signing_seed(), message@),
            r@.len() == 64,
            ed25519_verifies(ed25519_public_of(self.signing_seed()), message@, r@),
    {
        let signature = ed25519_sign(&self.signing_key, message);
        to_vec(&signature)
    }

    /// Verify an Ed25519 signature; a signature that is not 64 bytes long never verifies.
    pub fn verify(verifying_key: &VerifyingKey, message: &[u8], signature: &[u8]) -> (r: bool)
        ensures
            r == (signature@.len() == 64 && ed25519_verifies(
                verifying_key@,
                message@,
                signature@,
            )),
    {
        if signature.len() != 64 {
            return false;
        }
        let sig_bytes = array64_from_slice(signature);
        ed25519_verify(&verifying_key.bytes, message, &sig_bytes)
    }
}

/// A signed pre-key: an X25519 keypair whose public key is signed by an identity's
/// Ed25519 key.
pub struct SignedPreKey {
    secret_seed: [u8; 32],
    x25519_public: PublicKey,
    signature: Vec<u8>,
}

impl SignedPreKey {
    /// The X25519 secret (32 bytes).
    pub closed spec fn secret_seed(&self) -> Seq<u8> {
        self.secret_seed@
    }

    /// The X25519 public key.
    pub closed spec fn public(&self) -> Seq<u8> {
        self.x25519_public@
    }

    /// The signature over the public key.
    pub closed spec fn signature_bytes(&self) -> Seq<u8> {
        self.signature@
    }

    /// The secret is 32 bytes long.
    pub proof fn lemma_secret_length(&self)
        ensures
            self.secret_seed().len() == 32,
            self.public().len() == 32,
    {
    }

    /// Whether the signature is a valid Ed25519 signature of the public key under the
    /// identity's verifying key.
    pub open spec fn is_signed_by(&self, identity: &IdentityKeyPair) -> bool {
        self.signature_bytes().len() == 64 && ed25519_verifies(
            ed25519_public_of(identity.signing_seed()),
            self.public(),
            self.signature_bytes(),
        )
    }

    /// Generate a new random signed pre-key, signed by `identity`. Its public key belongs
    /// to its secret, and its signature verifies under `identity`.
    pub fn generate(identity: &IdentityKeyPair) -> (r: Self)
        ensures
            r.public() == x25519_public_of(r.secret_seed()),
            r.signature_bytes() == ed25519_signature(identity.signing_seed(), r.public()),
            r.signature_bytes().len() == 64,
            r.is_signed_by(identity),
    {
        let secret_seed = os_random_32();
        let x25519_public = public_key_of(&secret_seed);
        let signature = identity.sign(x25519_public.as_bytes());
        SignedPreKey { secret_seed, x25519_public, signature }
    }

    /// Rebuild a signed pre-key from exported bytes: a 32-byte secret, a 32-byte public
    /// key and a 64-byte signature, checked in that order.
    pub fn from_bytes(secret: &[u8], public: &[u8], signature: &[u8]) -> (r: Result<Self>)
        ensures
            secret@.len() != 32 ==> (r matches Err(CryptoError::InvalidKey(m)) && m@
                == "secret must be 32 bytes, got "@ + decimal_text(secret@.len())),
            secret@.len() == 32 && public@.len() != 32 ==> (r matches Err(
                CryptoError::InvalidKey(m),
            ) && m@ == "public key must be 32 bytes, got "@ + decimal_text(public@.len())),
            secret@.len() == 32 && public@.len() == 32 && signature@.len() != 64 ==> (r matches Err(
                CryptoError::InvalidKey(m),
            ) && m@ == "signature must be 64 bytes, got "@ + decimal_text(signature@.len())),
            secret@.len() == 32 && public@.len() == 32 && signature@.len() == 64 ==> (r matches Ok(
                k,
            ) && k.secret_seed() == secret@ && k.public() == public@ && k.signature_bytes()
                == signature@),
    {
        if secret.len() != 32 {
            return Err(
                CryptoError::InvalidKey(
                    text_with_number("secret must be 32 bytes, got ", secret.len() as u64),
                ),
            );
        }
        if public.len() != 32 {
            return Err(
                CryptoError::InvalidKey(
                    text_with_number("public key must be 32 bytes, got ", public.len() as u64),
                ),
            );
        }
        if signature.len() != 64 {
            return Err(
                CryptoError::InvalidKey(
                    text_with_number("signature must be 64 bytes, got ", signature.len() as u64),
                ),
            );
        }
        let secret_seed = array32_from_slice(secret);
        let x25519_public = PublicKey::from_bytes(array32_from_slice(public));
        Ok(SignedPreKey { secret_seed, x25519_public, signature: to_vec(signature) })
    }

    /// The X25519 public key.
    pub fn public_key(&self) -> (r: &PublicKey)
        ensures
            r@ == self.public(),
    {
        &self.x25519_public
    }

    /// The Ed25519 signature bytes.
    pub fn signature(&self) -> (r: &[u8])
        ensures
            r@ == self.signature_bytes(),
    {
        self.signature.as_slice()
    }

    /// Verify this pre-key's signature against `identity`'s verifying key.
    pub fn verify_signature(&self, identity: &IdentityKeyPair) -> (r: bool)
        ensures
            r == self.is_signed_by(identity),
    {
        let verifying_key = identity.verifying_key();
        IdentityKeyPair::verify(&verifying_key, self.x25519_public.as_bytes(), self.signature.as_slice())
    }

    /// X25519 key agreement with another party's public key.
    pub fn dh(&self, their_public: &PublicKey) -> (r: SharedSecret)
        ensures
            r@ == x25519_shared(self.secret_seed(), their_public@),
            forall|t: Seq<u8>|
                t.len() == 32 && #[trigger] x25519_public_of(t) == their_public@ ==> r@
                    == x25519_shared(t, x25519_public_of(self.secret_seed())),
    {
        diffie_hellman(&self.secret_seed, their_public)
    }

    /// The X25519 secret bytes.
    pub fn secret_bytes(&self) -> (r: [u8; 32])
        ensures
            r@ == self.secret_seed(),
    {
        self.secret_seed
    }
}

/// A one-time pre-key: an X25519 keypair with an identifier.
pub struct OneTimePreKey {
    id: u32,
    secret_seed: [u8; 32],
    x25519_public: PublicKey,
}

impl OneTimePreKey {
    #[verifier::type_invariant]
    spec fn public_key_matches(self) -> bool {
        self.x25519_public@ == x25519_public_of(self.secret_seed@)
    }

    /// The key identifier.
    pub closed spec fn key_id(&self) -> u32 {
        self.id
    }

    /// The X25519 secret (32 bytes).
    pub closed spec fn secret_seed(&self) -> Seq<u8> {
        self.secret_seed@
    }

    /// The secret is 32 bytes long.
    pub proof fn lemma_secret_length(&self)
        ensures
            self.secret_seed().len() == 32,
    {
    }

    /// Generate `count` random one-time pre-keys with identifiers 0, 1, 2, ... (as `u32`).
    pub fn generate_batch(count: usize) -> (r: Vec<Self>)
        ensures
            r@.len() == count,
            forall|i: int| 0 <= i < count ==> #[trigger] r@[i].key_id() == #[verifier::truncate] (i as u32),
    {
        let mut keys: Vec<Self> = Vec::new();
        let mut i: usize = 0;
        while i < count
            invariant
                i <= count,
                keys@.len() == i,
                forall|j: int| 0 <= j < i ==> #[trigger] keys@[j].key_id() == #[verifier::truncate] (j as u32),
            decreases count - i,
        {
            let secret_seed = os_random_32();
            let x25519_public = public_key_of(&secret_seed);
            keys.push(OneTimePreKey { id: #[verifier::truncate] (i as u32), secret_seed, x25519_public });
            i = i + 1;
        }
        keys
    }

    /// The X25519 public key.
    pub fn public_key(&self) -> (r: &PublicKey)
        ensures
            r@ == x25519_public_of(self.secret_seed()),
    {
        proof {
            use_type_invariant(self);
        }
        &self.x25519_public
    }

    /// The key identifier.
    pub fn id(&self) -> (r: u32)
        ensures
            r == self.key_id(),
    {
        self.id
    }

    /// X25519 key agreement with another party's public key.
    pub fn dh(&self, their_public: &PublicKey) -> (r: SharedSecret)
        ensures
            r@ == x25519_shared(self.secret_seed(), their_public@),
            forall|t: Seq<u8>|
                t.len() == 32 && #[trigger] x25519_public_of(t) == their_public@ ==> r@
                    == x25519_shared(t, x25519_public_of(self.secret_seed())),
    {
        diffie_hellman(&self.secret_seed, their_public)
    }

    /// The X25519 secret bytes.
    pub fn secret_bytes(&self) -> (r: [u8; 32])
        ensures
            r@ == self.secret_seed(),
    {
        self.secret_seed
    }
}

/// A bundle of public keys to publish: identity key, signed pre-key with its signature,
/// and one-time pre-keys.
#[derive(Clone)]
pub struct KeyBundle {
    identity_key: PublicKey,
    signed_pre_key: PublicKey,
    signature: Vec<u8>,
    one_time_pre_keys: Vec<PublicKey>,
}

impl KeyBundle {
    /// The identity public key.
    pub closed spec fn identity(&self) -> PublicKey {
        self.identity_key
    }

    /// The signed pre-key public key.
    pub closed spec fn pre_key(&self) -> PublicKey {
        self.signed_pre_key
    }

    /// The signature bytes.
    pub closed spec fn signature_bytes(&self) -> Seq<u8> {
        self.signature@
    }

    /// The one-time pre-key public keys.
    pub closed spec fn one_time_keys(&self) -> Seq<PublicKey> {
        self.one_time_pre_keys@
    }

    /// Assemble a bundle from its public parts.
    pub fn new(
        identity_key: PublicKey,
        signed_pre_key: PublicKey,
        signature: Vec<u8>,
        one_time_pre_keys: Vec<PublicKey>,
    ) -> (r: Self)
        ensures
            r.identity() == identity_key,
            r.pre_key() == signed_pre_key,
            r.signature_bytes() == signature@,
            r.one_time_keys() == one_time_pre_keys@,
    {
        KeyBundle { identity_key, signed_pre_key, signature, one_time_pre_keys }
    }

    /// The identity public key.
    pub fn identity_key(&self) -> (r: &PublicKey)
        ensures
            *r == self.identity(),
    {
        &self.identity_key
    }

    /// The signed pre-key public key.
    pub fn signed_pre_key(&self) -> (r: &PublicKey)
        ensures
            *r == self.pre_key(),
    {
        &self.signed_pre_key
    }

    /// The signature bytes.
    pub fn signature(&self) -> (r: &[u8])
        ensures
            r@ == self.signature_bytes(),
    {
        self.signature.as_slice()
    }

    /// The one-time pre-key public keys.
    pub fn one_time_pre_keys(&self) -> (r: &[PublicKey])
        ensures
            r@ == self.one_time_keys(),
    {
        self.one_time_pre_keys.as_slice()
    }
}

} // verus!
