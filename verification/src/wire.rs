//! The text formats of the browser surface: JSON objects whose binary members are
//! base64 text, read into the library's key and header types with the surface's
//! error messages, in the order the fields are checked.

use vstd::prelude::*;

use crate::api::MessageHeaderData;
use crate::bytes::array32_from_slice;
use crate::curve::{ed25519_key_decodes, PublicKey, VerifyingKey};
use crate::mls::openmls_api::{base64_decode, base64_value};
use crate::mls::starts_with;
use crate::x3dh::bundle::optional_key_bytes;
use crate::x3dh::PreKeyBundle;

verus! {

/// What `serde_json::from_slice::<Value>(text)` makes of member `field` as a string:
/// the error text where `text` is not JSON, else the member's UTF-8 bytes where it is a
/// string, else nothing.
pub uninterp spec fn json_string_member(text: Seq<u8>, field: Seq<char>) -> Result<Option<Seq<u8>>, Seq<char>>;

/// What `serde_json::from_slice::<Value>(text)` makes of member `field` as an unsigned
/// integer: the error text where `text` is not JSON, else the member's value where it is
/// a non-negative integer that fits in 64 bits, else nothing.
pub uninterp spec fn json_u64_member(text: Seq<u8>, field: Seq<char>) -> Result<Option<u64>, Seq<char>>;

/// `serde_json::from_slice::<serde_json::Value>` and then `value[field].as_str()`: the
/// result is the named outcome.
#[verifier::external_body]
fn json_string_field(text: &[u8], field: &str) -> (r: Result<Option<Vec<u8>>, String>)
    ensures
        match json_string_member(text@, field@) {
            Err(e) => r matches Err(m) && m@ == e,
            Ok(None) => r matches Ok(None),
            Ok(Some(s)) => r matches Ok(Some(b)) && b@ == s,
        },
{
    serde_json::from_slice::<serde_json::Value>(text)
        .map(|v| v[field].as_str().map(|s| s.as_bytes().to_vec()))
        .map_err(|e| e.to_string())
}

/// `serde_json::from_slice::<serde_json::Value>` and then `value[field].as_u64()`: the
/// result is the named outcome.
#[verifier::external_body]
fn json_u64_field(text: &[u8], field: &str) -> (r: Result<Option<u64>, String>)
    ensures
        match json_u64_member(text@, field@) {
            Err(e) => r matches Err(m) && m@ == e,
            Ok(n) => r == Ok::<Option<u64>, String>(n),
        },
{
    serde_json::from_slice::<serde_json::Value>(text).map(|v| v[field].as_u64()).map_err(|e| e.to_string())
}

/// Why a text is refused: the message, and whether that is the whole error text (else
/// its beginning, followed by the outside library's own words).
pub struct Refusal {
    pub text: Seq<char>,
    pub whole: bool,
}

/// `m` is the error text of the refusal `f`.
pub open spec fn refused(m: Seq<char>, f: Refusal) -> bool {
    if f.whole {
        m == f.text
    } else {
        starts_with(m, f.text)
    }
}

/// The beginning of the error for a member that is not valid base64.
pub open spec fn base64_field_error(field: Seq<char>) -> Seq<char> {
    "Invalid "@ + field + " base64: "@
}

/// The error for a key that is not 32 bytes long.
pub open spec fn key_length_error(field: Seq<char>) -> Seq<char> {
    field + " must be 32 bytes"@
}

/// The bytes that the base64 text of `field` stands for, or the refusal.
pub open spec fn field_bytes(field: Seq<char>, text: Seq<u8>) -> Result<Seq<u8>, Refusal> {
    match base64_value(text) {
        Some(v) => Ok(v),
        None => Err(Refusal { text: base64_field_error(field), whole: false }),
    }
}

/// The bytes of a 32-byte key, or the refusal.
pub open spec fn key_bytes(field: Seq<char>, bytes: Seq<u8>) -> Result<Seq<u8>, Refusal> {
    if bytes.len() == 32 {
        Ok(bytes)
    } else {
        Err(Refusal { text: key_length_error(field), whole: true })
    }
}

/// A string member of a JSON object named `object`, or the refusal.
pub open spec fn object_member(object: Seq<char>, json: Seq<u8>, field: Seq<char>) -> Result<Seq<u8>, Refusal> {
    match json_string_member(json, field) {
        Err(e) => Err(Refusal { text: "Invalid "@ + object + " JSON: "@ + e, whole: true }),
        Ok(None) => Err(Refusal { text: object + "."@ + field + " missing or not a string"@, whole: true }),
        Ok(Some(t)) => Ok(t),
    }
}

/// A number member of a JSON object named `object`, or the refusal.
pub open spec fn object_number(object: Seq<char>, json: Seq<u8>, field: Seq<char>) -> Result<u64, Refusal> {
    match json_u64_member(json, field) {
        Err(e) => Err(Refusal { text: "Invalid "@ + object + " JSON: "@ + e, whole: true }),
        Ok(None) => Err(Refusal { text: object + "."@ + field + " missing or not a number"@, whole: true }),
        Ok(Some(n)) => Ok(n),
    }
}

/// The text of the refusal of a verifying key that is not a curve point.
pub open spec fn verifying_key_point_error() -> Seq<char> {
    "Invalid identity_verifying_key: signature error: Cannot decompress Edwards point"@
}

/// The keys a pre-key bundle names.
pub struct BundleKeys {
    pub identity_key: Seq<u8>,
    pub signed_pre_key: Seq<u8>,
    pub signature: Seq<u8>,
    pub identity_verifying_key: Seq<u8>,
    pub one_time_pre_key: Option<Seq<u8>>,
}

/// The optional one-time pre-key of a bundle, or the refusal.
pub open spec fn bundle_one_time_key(json: Seq<u8>) -> Result<Option<Seq<u8>>, Refusal> {
    match json_string_member(json, "one_time_pre_key"@) {
        Err(e) => Err(Refusal { text: "Invalid bundle JSON: "@ + e, whole: true }),
        Ok(None) => Ok(None),
        Ok(Some(t)) => match field_bytes("one_time_pre_key"@, t) {
            Err(f) => Err(f),
            Ok(b) => match key_bytes("one_time_pre_key"@, b) {
                Err(f) => Err(f),
                Ok(k) => Ok(Some(k)),
            },
        },
    }
}

/// What reading a pre-key bundle from JSON gives: the four string members are fetched,
/// then decoded, then the three keys are checked for length, the verifying key for being
/// a curve point, and last the optional one-time pre-key.
pub open spec fn bundle_outcome(json: Seq<u8>) -> Result<BundleKeys, Refusal> {
    match object_member("bundle"@, json, "identity_key"@) {
        Err(f) => Err(f),
        Ok(ik_t) => match object_member("bundle"@, json, "signed_pre_key"@) {
            Err(f) => Err(f),
            Ok(spk_t) => match object_member("bundle"@, json, "signature"@) {
                Err(f) => Err(f),
                Ok(sig_t) => match object_member("bundle"@, json, "identity_verifying_key"@) {
                    Err(f) => Err(f),
                    Ok(vk_t) => match field_bytes("identity_key"@, ik_t) {
                        Err(f) => Err(f),
                        Ok(ik) => match field_bytes("signed_pre_key"@, spk_t) {
                            Err(f) => Err(f),
                            Ok(spk) => match field_bytes("signature"@, sig_t) {
                                Err(f) => Err(f),
                                Ok(sig) => match field_bytes("identity_verifying_key"@, vk_t) {
                                    Err(f) => Err(f),
                                    Ok(vk) => if ik.len() != 32 {
                                        Err(Refusal { text: key_length_error("identity_key"@), whole: true })
                                    } else if spk.len() != 32 {
                                        Err(Refusal { text: key_length_error("signed_pre_key"@), whole: true })
                                    } else if vk.len() != 32 {
                                        Err(
                                            Refusal { text: key_length_error("identity_verifying_key"@), whole: true },
                                        )
                                    } else if !ed25519_key_decodes(vk) {
                                        Err(Refusal { text: verifying_key_point_error(), whole: true })
                                    } else {
                                        match bundle_one_time_key(json) {
                                            Err(f) => Err(f),
                                            Ok(opk) => Ok(
                                                BundleKeys {
                                                    identity_key: ik,
                                                    signed_pre_key: spk,
                                                    signature: sig,
                                                    identity_verifying_key: vk,
                                                    one_time_pre_key: opk,
                                                },
                                            ),
                                        }
                                    },
                                },
                            },
                        },
                    },
                },
            },
        },
    }
}

/// What reading a message header from JSON gives: the header's key, decoded, then the
/// two counters, each cut to its low 32 bits.
pub open spec fn header_outcome(json: Seq<u8>) -> Result<(Seq<u8>, u32, u32), Refusal> {
    match object_member("header"@, json, "dh_public_key"@) {
        Err(f) => Err(f),
        Ok(t) => match field_bytes("dh_public_key"@, t) {
            Err(f) => Err(f),
            Ok(k) => match object_number("header"@, json, "message_number"@) {
                Err(f) => Err(f),
                Ok(n) => match object_number("header"@, json, "previous_chain_length"@) {
                    Err(f) => Err(f),
                    Ok(p) => Ok((k, n as u32, p as u32)),
                },
            },
        },
    }
}

proof fn lemma_prefix(a: Seq<char>, b: Seq<char>)
    ensures
        starts_with(a + b, a),
{
    assert((a + b).subrange(0, a.len() as int) =~= a);
}

/// The concatenation of three texts.
fn joined(a: &str, b: &str, c: &str) -> (r: String)
    ensures
        r@ == a@ + b@ + c@,
{
    let mut s = String::from_str(a);
    s.append(b);
    s.append(c);
    s
}

/// Decode the base64 text of the member `field`; the error names the member.
pub fn decode_field(field: &str, text: &[u8]) -> (r: Result<Vec<u8>, String>)
    ensures
        match field_bytes(field@, text@) {
            Ok(v) => r matches Ok(b) && b@ == v,
            Err(f) => r matches Err(m) && refused(m@, f),
        },
{
    match base64_decode(text) {
        Ok(b) => Ok(b),
        Err(e) => {
            let mut m = joined("Invalid ", field, " base64: ");
            let ghost head = m@;
            m.append(e.as_str());
            proof {
                lemma_prefix(head, e@);
            }
            Err(m)
        },
    }
}

/// The 32 bytes of the key held in member `field`; the error names the member.
pub fn key_array(field: &str, bytes: &[u8]) -> (r: Result<[u8; 32], String>)
    ensures
        match key_bytes(field@, bytes@) {
            Ok(v) => r matches Ok(a) && a@ == v,
            Err(f) => r matches Err(m) && refused(m@, f),
        },
{
    if bytes.len() != 32 {
        let mut m = String::from_str(field);
        m.append(" must be 32 bytes");
        return Err(m);
    }
    Ok(array32_from_slice(bytes))
}

/// The 32-byte key whose base64 text is in member `field`: refused when the text is not
/// base64, or else when it does not stand for 32 bytes.
pub fn decode_key_field(field: &str, text: &[u8]) -> (r: Result<[u8; 32], String>)
    ensures
        r is Ok <==> (base64_value(text@) matches Some(v) && v.len() == 32),
        r matches Ok(a) ==> base64_value(text@) == Some(a@),
        base64_value(text@) is None ==> (r matches Err(m) && starts_with(m@, base64_field_error(field@))),
        base64_value(text@) matches Some(v) && v.len() != 32 ==> (r matches Err(m) && m@ == key_length_error(
            field@,
        )),
{
    let bytes = decode_field(field, text)?;
    key_array(field, bytes.as_slice())
}

/// A string member of a JSON object named `object`.
fn member_text(object: &str, json: &[u8], field: &str) -> (r: Result<Vec<u8>, String>)
    ensures
        match object_member(object@, json@, field@) {
            Ok(t) => r matches Ok(b) && b@ == t,
            Err(f) => r matches Err(m) && refused(m@, f),
        },
{
    match json_string_field(json, field) {
        Ok(Some(b)) => Ok(b),
        Ok(None) => {
            let mut m = joined(object, ".", field);
            m.append(" missing or not a string");
            Err(m)
        },
        Err(e) => {
            let mut m = joined("Invalid ", object, " JSON: ");
            m.append(e.as_str());
            Err(m)
        },
    }
}

/// A number member of a JSON object named `object`.
fn member_number(object: &str, json: &[u8], field: &str) -> (r: Result<u64, String>)
    ensures
        match object_number(object@, json@, field@) {
            Ok(n) => r == Ok::<u64, String>(n),
            Err(f) => r matches Err(m) && refused(m@, f),
        },
{
    match json_u64_field(json, field) {
        Ok(Some(n)) => Ok(n),
        Ok(None) => {
            let mut m = joined(object, ".", field);
            m.append(" missing or not a number");
            Err(m)
        },
        Err(e) => {
            let mut m = joined("Invalid ", object, " JSON: ");
            m.append(e.as_str());
            Err(m)
        },
    }
}

/// Read a pre-key bundle from JSON with base64 members `identity_key`, `signed_pre_key`,
/// `signature`, `identity_verifying_key` and an optional `one_time_pre_key`; see
/// [`bundle_outcome`] for the order of the checks.
pub fn parse_pre_key_bundle(bundle_json: &[u8]) -> (r: Result<PreKeyBundle, String>)
    ensures
        match bundle_outcome(bundle_json@) {
            Ok(k) => r matches Ok(b) && b.identity_key@ == k.identity_key && b.signed_pre_key@
                == k.signed_pre_key && b.signature@ == k.signature && b.identity_verifying_key@
                == k.identity_verifying_key && optional_key_bytes(b.one_time_pre_key) == k.one_time_pre_key,
            Err(f) => r matches Err(m) && refused(m@, f),
        },
{
    let ik_text = member_text("bundle", bundle_json, "identity_key")?;
    let spk_text = member_text("bundle", bundle_json, "signed_pre_key")?;
    let sig_text = member_text("bundle", bundle_json, "signature")?;
    let vk_text = member_text("bundle", bundle_json, "identity_verifying_key")?;
    let ik = decode_field("identity_key", ik_text.as_slice())?;
    let spk = decode_field("signed_pre_key", spk_text.as_slice())?;
    let signature = decode_field("signature", sig_text.as_slice())?;
    let vk = decode_field("identity_verifying_key", vk_text.as_slice())?;
    let ik = key_array("identity_key", ik.as_slice())?;
    let spk = key_array("signed_pre_key", spk.as_slice())?;
    let vk = key_array("identity_verifying_key", vk.as_slice())?;
    let identity_verifying_key = match VerifyingKey::from_bytes(&vk) {
        Some(k) => k,
        None => {
            return Err(
                String::from_str("Invalid identity_verifying_key: signature error: Cannot decompress Edwards point"),
            );
        },
    };
    let one_time_pre_key = match json_string_field(bundle_json, "one_time_pre_key") {
        Err(e) => {
            let mut m = String::from_str("Invalid bundle JSON: ");
            m.append(e.as_str());
            return Err(m);
        },
        Ok(None) => None,
        Ok(Some(text)) => {
            let bytes = decode_field("one_time_pre_key", text.as_slice())?;
            let key = key_array("one_time_pre_key", bytes.as_slice())?;
            Some(PublicKey::from_bytes(key))
        },
    };
    Ok(
        PreKeyBundle {
            identity_key: PublicKey::from_bytes(ik),
            identity_verifying_key,
            signed_pre_key: PublicKey::from_bytes(spk),
            signature,
            one_time_pre_key,
        },
    )
}

/// Read a message header from JSON with a base64 member `dh_public_key` and number
/// members `message_number` and `previous_chain_length`; see [`header_outcome`].
pub fn parse_message_header(header_json: &[u8]) -> (r: Result<MessageHeaderData, String>)
    ensures
        match header_outcome(header_json@) {
            Ok((k, n, p)) => r matches Ok(h) && h.dh_public_key@ == k && h.message_number == n
                && h.previous_chain_length == p,
            Err(f) => r matches Err(m) && refused(m@, f),
        },
{
    let key_text = member_text("header", header_json, "dh_public_key")?;
    let dh_public_key = decode_field("dh_public_key", key_text.as_slice())?;
    let message_number = member_number("header", header_json, "message_number")?;
    let previous_chain_length = member_number("header", header_json, "previous_chain_length")?;
    Ok(
        MessageHeaderData {
            dh_public_key,
            message_number: #[verifier::truncate] (message_number as u32),
            previous_chain_length: #[verifier::truncate] (previous_chain_length as u32),
        },
    )
}

/// Read the initiator's identity key and ephemeral key from their base64 texts: both
/// are decoded first, then both checked for length.
pub fn parse_initiator_keys(identity_key_b64: &[u8], ephemeral_key_b64: &[u8]) -> (r: Result<(PublicKey, PublicKey), String>)
    ensures
        match field_bytes("alice_identity_key"@, identity_key_b64@) {
            Err(f) => r matches Err(m) && refused(m@, f),
            Ok(ik) => match field_bytes("alice_ephemeral_key"@, ephemeral_key_b64@) {
                Err(f) => r matches Err(m) && refused(m@, f),
                Ok(ek) => match key_bytes("alice_identity_key"@, ik) {
                    Err(f) => r matches Err(m) && refused(m@, f),
                    Ok(_) => match key_bytes("alice_ephemeral_key"@, ek) {
                        Err(f) => r matches Err(m) && refused(m@, f),
                        Ok(_) => r matches Ok((a, e)) && a@ == ik && e@ == ek,
                    },
                },
            },
        },
{
    let ik = decode_field("alice_identity_key", identity_key_b64)?;
    let ek = decode_field("alice_ephemeral_key", ephemeral_key_b64)?;
    let ik = key_array("alice_identity_key", ik.as_slice())?;
    let ek = key_array("alice_ephemeral_key", ek.as_slice())?;
    Ok((PublicKey::from_bytes(ik), PublicKey::from_bytes(ek)))
}

} // verus!
