//! ML-KEM-768 + X25519 hybrid key encapsulation: the hybrid shared secret is
//! HKDF(X25519 output || ML-KEM shared secret).

use vstd::prelude::*;
use ml_kem::kem::{Decapsulate, Encapsulate};
use ml_kem::{EncodedSizeUser, KemCore};

use crate::bytes::{append_bytes, decimal_text, text_with_number, to_vec};
use crate::curve::{diffie_hellman, public_key_of, x25519_public_of, x25519_random_secret, x25519_shared, PublicKey};
use crate::error::{CryptoError, Result};
use crate::kdf::hkdf_sha256;

verus! {

/// ML-KEM-768 public key size in bytes.
pub const MLKEM_PUBLIC_KEY_LEN: usize = 1184;

/// ML-KEM-768 secret key size in bytes.
pub const MLKEM_SECRET_KEY_LEN: usize = 2400;

/// ML-KEM-768 ciphertext size in bytes.
pub const MLKEM_CIPHERTEXT_LEN: usize = 1088;

/// The length in bytes of the hybrid shared secret.
pub const SHARED_SECRET_LEN: usize = 32;

/// The shared secret (32 bytes) that ML-KEM-768 decapsulation of `ciphertext` with the
/// encoded decapsulation key `secret_key` yields.
pub uninterp spec fn mlkem768_decapsulated(secret_key: Seq<u8>, ciphertext: Seq<u8>) -> Seq<u8>;

/// The HKDF salt: the ASCII text "GhostCrypt_Hybrid_PQ".
pub open spec fn hybrid_salt() -> Seq<u8> {
    seq![71u8, 104u8, 111u8, 115u8, 116u8, 67u8, 114u8, 121u8, 112u8, 116u8, 95u8, 72u8, 121u8, 98u8, 114u8, 105u8, 100u8, 95u8, 80u8, 81u8]
}

/// The HKDF info: the ASCII text "hybrid_shared_secret".
pub open spec fn hybrid_info() -> Seq<u8> {
    seq![104u8, 121u8, 98u8, 114u8, 105u8, 100u8, 95u8, 115u8, 104u8, 97u8, 114u8, 101u8, 100u8, 95u8, 115u8, 101u8, 99u8, 114u8, 101u8, 116u8]
}

/// The hybrid shared secret of an X25519 output and an ML-KEM shared secret.
pub open spec fn hybrid_secret(x25519_shared_secret: Seq<u8>, mlkem_shared_secret: Seq<u8>) -> Seq<u8> {
    hkdf_sha256(x25519_shared_secret + mlkem_shared_secret, hybrid_salt(), hybrid_info(), SHARED_SECRET_LEN as nat)
}

fn hybrid_salt_bytes() -> (r: [u8; 20])
    ensures
        r@ == hybrid_salt(),
{
    let a: [u8; 20] = [71u8, 104u8, 111u8, 115u8, 116u8, 67u8, 114u8, 121u8, 112u8, 116u8, 95u8, 72u8, 121u8, 98u8, 114u8, 105u8, 100u8, 95u8, 80u8, 81u8];
    assert(a@ =~= hybrid_salt());
    a
}

fn hybrid_info_bytes() -> (r: [u8; 20])
    ensures
        r@ == hybrid_info(),
{
    let a: [u8; 20] = [104u8, 121u8, 98u8, 114u8, 105u8, 100u8, 95u8, 115u8, 104u8, 97u8, 114u8, 101u8, 100u8, 95u8, 115u8, 101u8, 99u8, 114u8, 101u8, 116u8];
    assert(a@ =~= hybrid_info());
    a
}

/// `MlKem768::generate(&mut OsRng)`, returned as the encoded (encapsulation key,
/// decapsulation key). The keys are random; only their encoded lengths are claimed.
#[verifier::external_body]
fn mlkem768_generate() -> (r: (Vec<u8>, Vec<u8>))
    ensures
        r.0@.len() == MLKEM_PUBLIC_KEY_LEN,
        r.1@.len() == MLKEM_SECRET_KEY_LEN,
{
    let (dk, ek) = ml_kem::MlKem768::generate(&mut rand::rngs::OsRng);
    (ek.as_bytes().to_vec(), dk.as_bytes().to_vec())
}

/// `EncapsulationKey::<MlKem768Params>::from_bytes` on the slice converted with
/// `try_into`, then `encapsulate(&mut OsRng)`: fails exactly when the key is not 1184
/// bytes long (encapsulation itself never fails); the (ciphertext, shared secret) pair is
/// random, so only its lengths are claimed.
#[verifier::external_body]
fn mlkem768_encapsulate(public_key: &[u8]) -> (r: core::result::Result<(Vec<u8>, Vec<u8>), ()>)
    ensures
        r is Ok <==> public_key@.len() == MLKEM_PUBLIC_KEY_LEN,
        r matches Ok(p) ==> p.0@.len() == MLKEM_CIPHERTEXT_LEN && p.1@.len() == SHARED_SECRET_LEN,
{
    let encoded: &ml_kem::Encoded<ml_kem::kem::EncapsulationKey<ml_kem::MlKem768Params>> = match public_key.try_into() {
        Ok(e) => e,
        Err(_) => return Err(()),
    };
    match ml_kem::kem::EncapsulationKey::<ml_kem::MlKem768Params>::from_bytes(encoded).encapsulate(&mut rand::rngs::OsRng) {
        Ok((ct, ss)) => Ok((ct.to_vec(), ss.to_vec())),
        Err(_) => Err(()),
    }
}

/// `DecapsulationKey::<MlKem768Params>::from_bytes` and `decapsulate` on slices converted
/// with `try_into`: fails exactly when the key is not 2400 or the ciphertext not 1088
/// bytes long (decapsulation itself never fails); the result is the named shared secret.
#[verifier::external_body]
fn mlkem768_decapsulate(secret_key: &[u8], ciphertext: &[u8]) -> (r: core::result::Result<Vec<u8>, ()>)
    ensures
        r is Ok <==> (secret_key@.len() == MLKEM_SECRET_KEY_LEN && ciphertext@.len() == MLKEM_CIPHERTEXT_LEN),
        r matches Ok(ss) ==> ss@ == mlkem768_decapsulated(secret_key@, ciphertext@) && ss@.len() == SHARED_SECRET_LEN,
{
    let dk_encoded: &ml_kem::Encoded<ml_kem::kem::DecapsulationKey<ml_kem::MlKem768Params>> = match secret_key.try_into() {
        Ok(e) => e,
        Err(_) => return Err(()),
    };
    let ct: &ml_kem::Ciphertext<ml_kem::MlKem768> = match ciphertext.try_into() {
        Ok(c) => c,
        Err(_) => return Err(()),
    };
    match ml_kem::kem::DecapsulationKey::<ml_kem::MlKem768Params>::from_bytes(dk_encoded).decapsulate(ct) {
        Ok(ss) => Ok(ss.to_vec()),
        Err(_) => Err(()),
    }
}

/// Generate an ML-KEM-768 keypair: (public key bytes, secret key bytes). Always succeeds.
pub fn generate_kem_keypair() -> (r: Result<(Vec<u8>, Vec<u8>)>)
    ensures
        r matches Ok(p) && p.0@.len() == MLKEM_PUBLIC_KEY_LEN && p.1@.len() == MLKEM_SECRET_KEY_LEN,
{
    Ok(mlkem768_generate())
}

/// Encapsulate to a recipient's ML-KEM-768 public key: (ciphertext, shared secret).
/// Fails with an invalid-key error exactly when the key is not 1184 bytes long.
pub fn encapsulate(recipient_public_key: &[u8]) -> (r: Result<(Vec<u8>, Vec<u8>)>)
    ensures
        recipient_public_key@.len() != MLKEM_PUBLIC_KEY_LEN ==> (r matches Err(CryptoError::InvalidKey(m))
            && m@ == "ML-KEM public key must be 1184 bytes, got "@ + decimal_text(
            recipient_public_key@.len(),
        )),
        recipient_public_key@.len() == MLKEM_PUBLIC_KEY_LEN ==> (r matches Ok(p) && p.0@.len()
            == MLKEM_CIPHERTEXT_LEN && p.1@.len() == SHARED_SECRET_LEN),
{
    if recipient_public_key.len() != MLKEM_PUBLIC_KEY_LEN {
        return Err(
            CryptoError::InvalidKey(
                text_with_number("ML-KEM public key must be 1184 bytes, got ", recipient_public_key.len() as u64),
            ),
        );
    }
    match mlkem768_encapsulate(recipient_public_key) {
        Ok(p) => Ok(p),
        Err(_) => Err(CryptoError::KeyExchange(String::from_str("ML-KEM encapsulation failed: ()"))),
    }
}

/// Decapsulate with our ML-KEM-768 secret key. Fails with an invalid-key error when the
/// key is not 2400 bytes long, or else when the ciphertext is not 1088 bytes long.
pub fn decapsulate(secret_key: &[u8], ciphertext: &[u8]) -> (r: Result<Vec<u8>>)
    ensures
        secret_key@.len() != MLKEM_SECRET_KEY_LEN ==> (r matches Err(CryptoError::InvalidKey(m))
            && m@ == "ML-KEM secret key must be 2400 bytes, got "@ + decimal_text(secret_key@.len())),
        secret_key@.len() == MLKEM_SECRET_KEY_LEN && ciphertext@.len() != MLKEM_CIPHERTEXT_LEN ==> (
        r matches Err(CryptoError::InvalidKey(m)) && m@ == "ML-KEM ciphertext must be 1088 bytes, got "@
            + decimal_text(ciphertext@.len())),
        secret_key@.len() == MLKEM_SECRET_KEY_LEN && ciphertext@.len() == MLKEM_CIPHERTEXT_LEN ==> (
        r matches Ok(ss) && ss@ == mlkem768_decapsulated(secret_key@, ciphertext@)),
{
    if secret_key.len() != MLKEM_SECRET_KEY_LEN {
        return Err(
            CryptoError::InvalidKey(
                text_with_number("ML-KEM secret key must be 2400 bytes, got ", secret_key.len() as u64),
            ),
        );
    }
    if ciphertext.len() != MLKEM_CIPHERTEXT_LEN {
        return Err(
            CryptoError::InvalidKey(
                text_with_number("ML-KEM ciphertext must be 1088 bytes, got ", ciphertext.len() as u64),
            ),
        );
    }
    match mlkem768_decapsulate(secret_key, ciphertext) {
        Ok(ss) => Ok(ss),
        Err(_) => Err(CryptoError::KeyExchange(String::from_str("ML-KEM decapsulation failed: ()"))),
    }
}

/// Combine an X25519 output with an ML-KEM shared secret via HKDF-SHA256. Always succeeds.
pub fn hybrid_shared_secret(x25519_shared: &[u8], mlkem_shared: &[u8]) -> (r: Result<Vec<u8>>)
    ensures
        r matches Ok(v) && v@ == hybrid_secret(x25519_shared@, mlkem_shared@) && v@.len() == SHARED_SECRET_LEN,
{
    let mut combined: Vec<u8> = Vec::new();
    append_bytes(&mut combined, x25519_shared);
    append_bytes(&mut combined, mlkem_shared);
    assert(combined@ =~= x25519_shared@ + mlkem_shared@);
    let salt = hybrid_salt_bytes();
    let info = hybrid_info_bytes();
    crate::kdf::derive(combined.as_slice(), &salt, &info, SHARED_SECRET_LEN)
}

/// A combined X25519 + ML-KEM-768 keypair.
pub struct HybridKeyPair {
    pub x25519_public: Vec<u8>,
    pub x25519_secret: Vec<u8>,
    pub mlkem_public: Vec<u8>,
    pub mlkem_secret: Vec<u8>,
}

/// Generate a random hybrid keypair; its X25519 public key belongs to its X25519 secret.
/// Always succeeds.
pub fn generate_hybrid_keypair() -> (r: Result<HybridKeyPair>)
    ensures
        r matches Ok(k) && k.x25519_secret@.len() == 32 && k.x25519_public@ == x25519_public_of(
            k.x25519_secret@,
        ) && k.mlkem_public@.len() == MLKEM_PUBLIC_KEY_LEN && k.mlkem_secret@.len() == MLKEM_SECRET_KEY_LEN,
{
    let x25519_secret = x25519_random_secret();
    let x25519_public = public_key_of(&x25519_secret);
    let (mlkem_pub, mlkem_sec) = generate_kem_keypair()?;
    Ok(
        HybridKeyPair {
            x25519_public: to_vec(x25519_public.as_bytes()),
            x25519_secret: to_vec(&x25519_secret),
            mlkem_public: mlkem_pub,
            mlkem_secret: mlkem_sec,
        },
    )
}

/// The result of a hybrid encapsulation.
pub struct HybridEncapsulation {
    /// The X25519 public key of the sender's secret.
    pub x25519_ephemeral_public: Vec<u8>,
    /// The ML-KEM-768 ciphertext to send to the recipient.
    pub mlkem_ciphertext: Vec<u8>,
    /// The hybrid shared secret (for local use only).
    pub shared_secret: Vec<u8>,
}

/// Hybrid encapsulation: X25519 with the recipient's X25519 key, ML-KEM encapsulation to
/// the recipient's ML-KEM key, and the HKDF combination of both. Fails exactly when the
/// ML-KEM key is not 1184 bytes long. The shared secret combines our X25519 output with
/// the (random) 32-byte ML-KEM secret.
pub fn hybrid_encapsulate(our_x25519_secret: &[u8; 32], their_x25519_public: &[u8; 32], their_mlkem_public: &[u8]) -> (r: Result<HybridEncapsulation>)
    ensures
        their_mlkem_public@.len() != MLKEM_PUBLIC_KEY_LEN ==> (r matches Err(e) && e is InvalidKey),
        their_mlkem_public@.len() == MLKEM_PUBLIC_KEY_LEN ==> r is Ok,
        r matches Ok(enc) ==> enc.x25519_ephemeral_public@ == x25519_public_of(our_x25519_secret@)
            && enc.mlkem_ciphertext@.len() == MLKEM_CIPHERTEXT_LEN && enc.shared_secret@.len() == SHARED_SECRET_LEN,
        r matches Ok(enc) ==> exists|k: Seq<u8>|
            k.len() == SHARED_SECRET_LEN && enc.shared_secret@ == #[trigger] hybrid_secret(
                x25519_shared(our_x25519_secret@, their_x25519_public@),
                k,
            ),
{
    let their_pub = PublicKey::from_bytes(*their_x25519_public);
    let x25519_out = diffie_hellman(our_x25519_secret, &their_pub);
    let (mlkem_ct, mlkem_shared) = encapsulate(their_mlkem_public)?;
    let hybrid = hybrid_shared_secret(x25519_out.as_bytes(), mlkem_shared.as_slice())?;
    let ephemeral_pub = public_key_of(our_x25519_secret);
    assert(hybrid@ == hybrid_secret(x25519_shared(our_x25519_secret@, their_x25519_public@), mlkem_shared@));
    Ok(
        HybridEncapsulation {
            x25519_ephemeral_public: to_vec(ephemeral_pub.as_bytes()),
            mlkem_ciphertext: mlkem_ct,
            shared_secret: hybrid,
        },
    )
}

/// Hybrid decapsulation: X25519 with the sender's X25519 key, ML-KEM decapsulation with
/// our ML-KEM key, and the HKDF combination of both. Fails with an invalid-key error when
/// the ML-KEM key or ciphertext has the wrong length. The X25519 part agrees with the
/// sender's: for every sender secret `t` behind `their_x25519_public`, the result combines
/// DH(t, our public key) with the decapsulated ML-KEM secret.
pub fn hybrid_decapsulate(
    our_x25519_secret: &[u8; 32],
    their_x25519_public: &[u8; 32],
    our_mlkem_secret: &[u8],
    mlkem_ciphertext: &[u8],
) -> (r: Result<Vec<u8>>)
    ensures
        !(our_mlkem_secret@.len() == MLKEM_SECRET_KEY_LEN && mlkem_ciphertext@.len() == MLKEM_CIPHERTEXT_LEN) ==> (
        r matches Err(e) && e is InvalidKey),
        our_mlkem_secret@.len() == MLKEM_SECRET_KEY_LEN && mlkem_ciphertext@.len() == MLKEM_CIPHERTEXT_LEN ==> (
        r matches Ok(v) && v@ == hybrid_secret(
            x25519_shared(our_x25519_secret@, their_x25519_public@),
            mlkem768_decapsulated(our_mlkem_secret@, mlkem_ciphertext@),
        )),
        r matches Ok(v) ==> forall|t: Seq<u8>|
            t.len() == 32 && #[trigger] x25519_public_of(t) == their_x25519_public@ ==> v@ == hybrid_secret(
                x25519_shared(t, x25519_public_of(our_x25519_secret@)),
                mlkem768_decapsulated(our_mlkem_secret@, mlkem_ciphertext@),
            ),
{
    let their_pub = PublicKey::from_bytes(*their_x25519_public);
    let x25519_out = diffie_hellman(our_x25519_secret, &their_pub);
    let mlkem_shared = decapsulate(our_mlkem_secret, mlkem_ciphertext)?;
    hybrid_shared_secret(x25519_out.as_bytes(), mlkem_shared.as_slice())
}

} // verus!
