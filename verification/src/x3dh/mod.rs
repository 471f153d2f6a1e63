//! X3DH key agreement: an initiator with a published pre-key bundle and a responder
//! with the matching private keys derive the same 32-byte shared secret.

pub mod bundle;

pub use bundle::{PreKeyBundle, X3DHResult};

use vstd::prelude::*;

use crate::bytes::append_bytes;
use crate::curve::{
    diffie_hellman, ed25519_verifies, public_key_of, x25519_public_of, x25519_random_secret,
    x25519_shared, PublicKey,
};
use crate::error::{CryptoError, Result};
use crate::identity::{IdentityKeyPair, OneTimePreKey, SignedPreKey};
use crate::kdf::hkdf_sha256;
use bundle::optional_key_bytes;

verus! {

/// The length in bytes of the derived shared secret.
pub const SHARED_SECRET_LEN: usize = 32;

/// The HKDF salt: the ASCII text "GhostCrypt_X3DH".
pub open spec fn x3dh_salt() -> Seq<u8> {
    seq![71u8, 104u8, 111u8, 115u8, 116u8, 67u8, 114u8, 121u8, 112u8, 116u8, 95u8, 88u8, 51u8, 68u8, 72u8]
}

/// The HKDF info: the ASCII text "X3DH_shared_secret".
pub open spec fn x3dh_info() -> Seq<u8> {
    seq![88u8, 51u8, 68u8, 72u8, 95u8, 115u8, 104u8, 97u8, 114u8, 101u8, 100u8, 95u8, 115u8, 101u8, 99u8, 114u8, 101u8, 116u8]
}

fn x3dh_salt_bytes() -> (r: [u8; 15])
    ensures
        r@ == x3dh_salt(),
{
    let a: [u8; 15] = [71u8, 104u8, 111u8, 115u8, 116u8, 67u8, 114u8, 121u8, 112u8, 116u8, 95u8, 88u8, 51u8, 68u8, 72u8];
    assert(a@ =~= x3dh_salt());
    a
}

fn x3dh_info_bytes() -> (r: [u8; 18])
    ensures
        r@ == x3dh_info(),
{
    let a: [u8; 18] = [88u8, 51u8, 68u8, 72u8, 95u8, 115u8, 104u8, 97u8, 114u8, 101u8, 100u8, 95u8, 115u8, 101u8, 99u8, 114u8, 101u8, 116u8];
    assert(a@ =~= x3dh_info());
    a
}

/// The shared secret derived from the concatenated agreement outputs.
pub open spec fn x3dh_shared_secret(key_material: Seq<u8>) -> Seq<u8> {
    hkdf_sha256(key_material, x3dh_salt(), x3dh_info(), SHARED_SECRET_LEN as nat)
}

/// The concatenated agreement outputs as the initiator computes them:
/// DH(IK_A, SPK_B) || DH(EK_A, IK_B) || DH(EK_A, SPK_B) [|| DH(EK_A, OPK_B)].
pub open spec fn initiator_key_material(
    alice_secret: Seq<u8>,
    ephemeral_secret: Seq<u8>,
    bob_identity: Seq<u8>,
    bob_pre_key: Seq<u8>,
    bob_one_time: Option<Seq<u8>>,
) -> Seq<u8> {
    x25519_shared(alice_secret, bob_pre_key) + x25519_shared(ephemeral_secret, bob_identity)
        + x25519_shared(ephemeral_secret, bob_pre_key) + match bob_one_time {
        Some(o) => x25519_shared(ephemeral_secret, o),
        None => Seq::empty(),
    }
}

/// The concatenated agreement outputs as the responder computes them:
/// DH(SPK_B, IK_A) || DH(IK_B, EK_A) || DH(SPK_B, EK_A) [|| DH(OPK_B, EK_A)].
pub open spec fn responder_key_material(
    bob_secret: Seq<u8>,
    pre_key_secret: Seq<u8>,
    one_time_secret: Option<Seq<u8>>,
    alice_identity: Seq<u8>,
    alice_ephemeral: Seq<u8>,
) -> Seq<u8> {
    x25519_shared(pre_key_secret, alice_identity) + x25519_shared(bob_secret, alice_ephemeral)
        + x25519_shared(pre_key_secret, alice_ephemeral) + match one_time_secret {
        Some(o) => x25519_shared(o, alice_ephemeral),
        None => Seq::empty(),
    }
}

/// Law (X3DH key material): the shared secret is HKDF-SHA256, with the X3DH salt and
/// info, of exactly three agreement outputs when no one-time pre-key is used —
/// DH(IK_A, SPK_B) || DH(EK_A, IK_B) || DH(EK_A, SPK_B) — and of those three followed by
/// DH(EK_A, OPK_B) when one is; the responder's side uses the same outputs from its
/// secrets, in the same order.
pub proof fn lemma_x3dh_key_material(
    alice_secret: Seq<u8>,
    ephemeral_secret: Seq<u8>,
    bob_secret: Seq<u8>,
    pre_key_secret: Seq<u8>,
    bob_identity: Seq<u8>,
    bob_pre_key: Seq<u8>,
    one_time: Seq<u8>,
    one_time_secret: Seq<u8>,
    alice_identity: Seq<u8>,
    alice_ephemeral: Seq<u8>,
)
    ensures
        x3dh_shared_secret(initiator_key_material(alice_secret, ephemeral_secret, bob_identity, bob_pre_key, None))
            == hkdf_sha256(
            x25519_shared(alice_secret, bob_pre_key) + x25519_shared(ephemeral_secret, bob_identity)
                + x25519_shared(ephemeral_secret, bob_pre_key),
            x3dh_salt(),
            x3dh_info(),
            32,
        ),
        x3dh_shared_secret(
            initiator_key_material(alice_secret, ephemeral_secret, bob_identity, bob_pre_key, Some(one_time)),
        ) == hkdf_sha256(
            x25519_shared(alice_secret, bob_pre_key) + x25519_shared(ephemeral_secret, bob_identity)
                + x25519_shared(ephemeral_secret, bob_pre_key) + x25519_shared(ephemeral_secret, one_time),
            x3dh_salt(),
            x3dh_info(),
            32,
        ),
        x3dh_shared_secret(responder_key_material(bob_secret, pre_key_secret, None, alice_identity, alice_ephemeral))
            == hkdf_sha256(
            x25519_shared(pre_key_secret, alice_identity) + x25519_shared(bob_secret, alice_ephemeral)
                + x25519_shared(pre_key_secret, alice_ephemeral),
            x3dh_salt(),
            x3dh_info(),
            32,
        ),
        x3dh_shared_secret(
            responder_key_material(bob_secret, pre_key_secret, Some(one_time_secret), alice_identity, alice_ephemeral),
        ) == hkdf_sha256(
            x25519_shared(pre_key_secret, alice_identity) + x25519_shared(bob_secret, alice_ephemeral)
                + x25519_shared(pre_key_secret, alice_ephemeral) + x25519_shared(one_time_secret, alice_ephemeral),
            x3dh_salt(),
            x3dh_info(),
            32,
        ),
{
    let a = x25519_shared(alice_secret, bob_pre_key) + x25519_shared(ephemeral_secret, bob_identity)
        + x25519_shared(ephemeral_secret, bob_pre_key);
    assert(a + Seq::<u8>::empty() =~= a);
    let b = x25519_shared(pre_key_secret, alice_identity) + x25519_shared(bob_secret, alice_ephemeral)
        + x25519_shared(pre_key_secret, alice_ephemeral);
    assert(b + Seq::<u8>::empty() =~= b);
}

/// Whether the bundle's signed pre-key carries a valid signature under the bundle's
/// verifying key.
pub open spec fn bundle_is_authentic(bundle: PreKeyBundle) -> bool {
    bundle.signature@.len() == 64 && ed25519_verifies(
        bundle.identity_verifying_key@,
        bundle.signed_pre_key@,
        bundle.signature@,
    )
}

/// The secret of an optional one-time pre-key.
pub open spec fn one_time_secret(key: Option<&OneTimePreKey>) -> Option<Seq<u8>> {
    match key {
        Some(k) => Some(k.secret_seed()),
        None => None,
    }
}

/// The public key of an optional one-time pre-key.
pub open spec fn one_time_public(key: Option<&OneTimePreKey>) -> Option<Seq<u8>> {
    match key {
        Some(k) => Some(x25519_public_of(k.secret_seed())),
        None => None,
    }
}

fn agree_as_initiator(alice_identity: &IdentityKeyPair, bob_bundle: &PreKeyBundle, ephemeral_secret: &[u8; 32]) -> (r: X3DHResult)
    ensures
        r.ephemeral_key@ == x25519_public_of(ephemeral_secret@),
        r.shared_secret@ == x3dh_shared_secret(
            initiator_key_material(
                alice_identity.secret_seed(),
                ephemeral_secret@,
                bob_bundle.identity_key@,
                bob_bundle.signed_pre_key@,
                optional_key_bytes(bob_bundle.one_time_pre_key),
            ),
        ),
        r.shared_secret@.len() == SHARED_SECRET_LEN,
        bob_bundle.one_time_pre_key is None ==> r.shared_secret@ == hkdf_sha256(
            x25519_shared(alice_identity.secret_seed(), bob_bundle.signed_pre_key@) + x25519_shared(
                ephemeral_secret@,
                bob_bundle.identity_key@,
            ) + x25519_shared(ephemeral_secret@, bob_bundle.signed_pre_key@),
            x3dh_salt(),
            x3dh_info(),
            32,
        ),
        bob_bundle.one_time_pre_key matches Some(o) ==> r.shared_secret@ == hkdf_sha256(
            x25519_shared(alice_identity.secret_seed(), bob_bundle.signed_pre_key@) + x25519_shared(
                ephemeral_secret@,
                bob_bundle.identity_key@,
            ) + x25519_shared(ephemeral_secret@, bob_bundle.signed_pre_key@) + x25519_shared(
                ephemeral_secret@,
                o@,
            ),
            x3dh_salt(),
            x3dh_info(),
            32,
        ),
{
    let ephemeral_public = public_key_of(ephemeral_secret);
    let dh1 = alice_identity.dh(&bob_bundle.signed_pre_key);
    let dh2 = diffie_hellman(ephemeral_secret, &bob_bundle.identity_key);
    let dh3 = diffie_hellman(ephemeral_secret, &bob_bundle.signed_pre_key);
    let mut dh_concat: Vec<u8> = Vec::new();
    append_bytes(&mut dh_concat, dh1.as_bytes());
    append_bytes(&mut dh_concat, dh2.as_bytes());
    append_bytes(&mut dh_concat, dh3.as_bytes());
    match &bob_bundle.one_time_pre_key {
        Some(opk) => {
            let dh4 = diffie_hellman(ephemeral_secret, opk);
            append_bytes(&mut dh_concat, dh4.as_bytes());
        },
        None => {},
    }
    assert(dh_concat@ =~= initiator_key_material(
        alice_identity.secret_seed(),
        ephemeral_secret@,
        bob_bundle.identity_key@,
        bob_bundle.signed_pre_key@,
        optional_key_bytes(bob_bundle.one_time_pre_key),
    ));
    let salt = x3dh_salt_bytes();
    let info = x3dh_info_bytes();
    let shared_secret = match crate::kdf::derive(dh_concat.as_slice(), &salt, &info, SHARED_SECRET_LEN) {
        Ok(s) => s,
        Err(_) => {
            assert(false);
            Vec::new()
        },
    };
    X3DHResult { shared_secret, ephemeral_key: ephemeral_public }
}

/// The initiator's side of X3DH with a given ephemeral secret: authenticate the bundle's
/// signed pre-key, then derive the shared secret from three or four agreements.
pub fn initiate_with_ephemeral(alice_identity: &IdentityKeyPair, bob_bundle: &PreKeyBundle, ephemeral_secret: &[u8; 32]) -> (r: Result<X3DHResult>)
    ensures
        !bundle_is_authentic(*bob_bundle) ==> (r matches Err(CryptoError::InvalidSignature(m)) && m@
            == "signed pre-key signature failed verification"@),
        bundle_is_authentic(*bob_bundle) ==> (r matches Ok(res) && res.ephemeral_key@
            == x25519_public_of(ephemeral_secret@) && res.shared_secret@ == x3dh_shared_secret(
            initiator_key_material(
                alice_identity.secret_seed(),
                ephemeral_secret@,
                bob_bundle.identity_key@,
                bob_bundle.signed_pre_key@,
                optional_key_bytes(bob_bundle.one_time_pre_key),
            ),
        ) && res.shared_secret@.len() == SHARED_SECRET_LEN),
{
    if !IdentityKeyPair::verify(
        &bob_bundle.identity_verifying_key,
        bob_bundle.signed_pre_key.as_bytes(),
        bob_bundle.signature.as_slice(),
    ) {
        return Err(CryptoError::InvalidSignature(String::from_str("signed pre-key signature failed verification")));
    }
    Ok(agree_as_initiator(alice_identity, bob_bundle, ephemeral_secret))
}

/// The initiator's side of X3DH: authenticate the bundle's signed pre-key, generate a
/// random ephemeral key, and derive the shared secret. The result holds the ephemeral
/// public key, which belongs to the ephemeral secret the secret was derived with.
pub fn initiate(alice_identity: &IdentityKeyPair, bob_bundle: &PreKeyBundle) -> (r: Result<X3DHResult>)
    ensures
        !bundle_is_authentic(*bob_bundle) ==> (r matches Err(CryptoError::InvalidSignature(m)) && m@
            == "signed pre-key signature failed verification"@),
        bundle_is_authentic(*bob_bundle) ==> r is Ok,
        r matches Ok(res) ==> exists|e: Seq<u8>|
            e.len() == 32 && #[trigger] x25519_public_of(e) == res.ephemeral_key@
                && res.shared_secret@ == x3dh_shared_secret(
                initiator_key_material(
                    alice_identity.secret_seed(),
                    e,
                    bob_bundle.identity_key@,
                    bob_bundle.signed_pre_key@,
                    optional_key_bytes(bob_bundle.one_time_pre_key),
                ),
            ) && (bob_bundle.one_time_pre_key is None ==> res.shared_secret@ == hkdf_sha256(
                x25519_shared(alice_identity.secret_seed(), bob_bundle.signed_pre_key@) + x25519_shared(
                    e,
                    bob_bundle.identity_key@,
                ) + x25519_shared(e, bob_bundle.signed_pre_key@),
                x3dh_salt(),
                x3dh_info(),
                32,
            )) && (bob_bundle.one_time_pre_key matches Some(o) ==> res.shared_secret@ == hkdf_sha256(
                x25519_shared(alice_identity.secret_seed(), bob_bundle.signed_pre_key@) + x25519_shared(
                    e,
                    bob_bundle.identity_key@,
                ) + x25519_shared(e, bob_bundle.signed_pre_key@) + x25519_shared(e, o@),
                x3dh_salt(),
                x3dh_info(),
                32,
            )),
        r matches Ok(res) ==> res.shared_secret@.len() == SHARED_SECRET_LEN,
{
    if !IdentityKeyPair::verify(
        &bob_bundle.identity_verifying_key,
        bob_bundle.signed_pre_key.as_bytes(),
        bob_bundle.signature.as_slice(),
    ) {
        return Err(CryptoError::InvalidSignature(String::from_str("signed pre-key signature failed verification")));
    }
    let ephemeral_secret = x25519_random_secret();
    let res = agree_as_initiator(alice_identity, bob_bundle, &ephemeral_secret);
    assert(x25519_public_of(ephemeral_secret@) == res.ephemeral_key@);
    Ok(res)
}

/// The responder's side of X3DH: mirror the initiator's agreements with the responder's
/// private keys and the initiator's public keys. The result always succeeds, and (X3DH
/// agreement) whenever the initiator's identity and ephemeral keys belong to secrets `a`
/// and `e`, it equals the secret the initiator derives with `a` and `e` from the
/// responder's public keys.
pub fn respond(
    bob_identity: &IdentityKeyPair,
    bob_spk: &SignedPreKey,
    bob_opk: Option<&OneTimePreKey>,
    alice_identity_pub: &PublicKey,
    alice_ephemeral_pub: &PublicKey,
) -> (r: Result<X3DHResult>)
    ensures
        r matches Ok(res) && res.ephemeral_key == *alice_ephemeral_pub && res.shared_secret@
            == x3dh_shared_secret(
            responder_key_material(
                bob_identity.secret_seed(),
                bob_spk.secret_seed(),
                one_time_secret(bob_opk),
                alice_identity_pub@,
                alice_ephemeral_pub@,
            ),
        ) && res.shared_secret@.len() == SHARED_SECRET_LEN,
        bob_opk is None ==> (r matches Ok(res) && res.shared_secret@ == hkdf_sha256(
            x25519_shared(bob_spk.secret_seed(), alice_identity_pub@) + x25519_shared(
                bob_identity.secret_seed(),
                alice_ephemeral_pub@,
            ) + x25519_shared(bob_spk.secret_seed(), alice_ephemeral_pub@),
            x3dh_salt(),
            x3dh_info(),
            32,
        )),
        bob_opk matches Some(o) ==> (r matches Ok(res) && res.shared_secret@ == hkdf_sha256(
            x25519_shared(bob_spk.secret_seed(), alice_identity_pub@) + x25519_shared(
                bob_identity.secret_seed(),
                alice_ephemeral_pub@,
            ) + x25519_shared(bob_spk.secret_seed(), alice_ephemeral_pub@) + x25519_shared(
                o.secret_seed(),
                alice_ephemeral_pub@,
            ),
            x3dh_salt(),
            x3dh_info(),
            32,
        )),
        r matches Ok(res) ==> forall|a: Seq<u8>, e: Seq<u8>|
            #![trigger x25519_public_of(a), x25519_public_of(e)]
            a.len() == 32 && e.len() == 32 && x25519_public_of(a) == alice_identity_pub@
                && x25519_public_of(e) == alice_ephemeral_pub@ ==> res.shared_secret@
                == x3dh_shared_secret(
                initiator_key_material(
                    a,
                    e,
                    x25519_public_of(bob_identity.secret_seed()),
                    x25519_public_of(bob_spk.secret_seed()),
                    one_time_public(bob_opk),
                ),
            ),
{
    proof {
        bob_identity.lemma_secret_lengths();
        bob_spk.lemma_secret_length();
    }
    let dh1 = bob_spk.dh(alice_identity_pub);
    let dh2 = bob_identity.dh(alice_ephemeral_pub);
    let dh3 = bob_spk.dh(alice_ephemeral_pub);
    let mut dh_concat: Vec<u8> = Vec::new();
    append_bytes(&mut dh_concat, dh1.as_bytes());
    append_bytes(&mut dh_concat, dh2.as_bytes());
    append_bytes(&mut dh_concat, dh3.as_bytes());
    let ghost mut dh4_view: Seq<u8> = Seq::empty();
    match bob_opk {
        Some(opk) => {
            proof {
                opk.lemma_secret_length();
            }
            let dh4 = opk.dh(alice_ephemeral_pub);
            append_bytes(&mut dh_concat, dh4.as_bytes());
            proof {
                dh4_view = dh4@;
            }
            assert forall|e: Seq<u8>|
                e.len() == 32 && #[trigger] x25519_public_of(e) == alice_ephemeral_pub@ implies dh4_view
                    == x25519_shared(e, x25519_public_of(opk.secret_seed())) by {}
        },
        None => {},
    }
    let ghost km = responder_key_material(
        bob_identity.secret_seed(),
        bob_spk.secret_seed(),
        one_time_secret(bob_opk),
        alice_identity_pub@,
        alice_ephemeral_pub@,
    );
    assert(dh_concat@ =~= km);
    assert forall|a: Seq<u8>, e: Seq<u8>|
        #![trigger x25519_public_of(a), x25519_public_of(e)]
        a.len() == 32 && e.len() == 32 && x25519_public_of(a) == alice_identity_pub@
            && x25519_public_of(e) == alice_ephemeral_pub@ implies km =~= initiator_key_material(
            a,
            e,
            x25519_public_of(bob_identity.secret_seed()),
            x25519_public_of(bob_spk.secret_seed()),
            one_time_public(bob_opk),
        ) by {}
    let salt = x3dh_salt_bytes();
    let info = x3dh_info_bytes();
    let shared_secret = match crate::kdf::derive(dh_concat.as_slice(), &salt, &info, SHARED_SECRET_LEN) {
        Ok(s) => s,
        Err(_) => {
            assert(false);
            Vec::new()
        },
    };
    Ok(X3DHResult { shared_secret, ephemeral_key: *alice_ephemeral_pub })
}

} // verus!
