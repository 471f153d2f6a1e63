//! MLS group messaging on openmls, without state between calls: each operation takes
//! the serialized state of a group (or the secrets of a key package) and returns the
//! new state. The state blob carries the provider's key store, the signing key and the
//! credential alongside the group's identifier (see [`bundle`]).

pub mod bundle;
pub mod openmls_api;

use vstd::prelude::*;

use openmls::prelude::{CredentialWithKey, MlsGroup, MlsMessageIn, MlsMessageOut};
use openmls_basic_credential::SignatureKeyPair;
use openmls_rust_crypto::OpenMlsRustCrypto;
use openmls_traits::types::Ciphersuite;

use crate::bytes::{append_decimal, decimal_text};
use crate::error::CryptoError;
use crate::json::{plain_byte, plain_text};
use self::bundle::{encode_bundle, entries_view, parse_bundle, store_plain, written_for, BundleFields, StateBundle};
use self::openmls_api::{
    add_member_commit, base64_decode, base64_encode, base64_symbol, base64_text, base64_value, build_key_package,
    ciphersuite_from_code, copy_credential, create_application_message, credential_from_json, credential_json,
    credential_with_key, group_epoch, group_id_bytes, group_id_from_json, group_id_json,
    group_id_of, group_join_config, key_package_from_tls, key_package_tls, load_stored_group, merge_pending_commit,
    merge_staged_commit, message_content, mls_message_from_tls, mls_message_tls, new_group, new_provider,
    new_signer, process_protocol_message, protocol_message_of, remove_member_commit, signer_from_json,
    signer_json, stage_welcome, storage_entries, storage_insert, store_pending_proposal, store_signer,
    validate_key_package, welcome_into_group, welcome_of, GroupMessageContent,
};

verus! {

/// The registry number of the ciphersuite used throughout: X25519, AES-128-GCM,
/// SHA-256 and Ed25519.
pub const CIPHERSUITE_CODE: u16 = 1;

/// An MLS key package and the secrets that go with it.
#[derive(Debug, Clone)]
pub struct MlsKeyPackageResult {
    /// TLS encoding of the key package, to share.
    pub key_package: Vec<u8>,
    /// State blob (without a group) that processing a welcome for this key package
    /// needs; to keep private.
    pub secret_bundle: Vec<u8>,
}

/// A new group.
#[derive(Debug, Clone)]
pub struct CreateGroupResult {
    /// State blob of the group.
    pub group_state: Vec<u8>,
    /// The group's identifier.
    pub group_id: Vec<u8>,
    /// Its epoch.
    pub epoch: u64,
}

/// The result of adding a member.
#[derive(Debug, Clone)]
pub struct AddMemberResult {
    /// TLS encoding of the commit, for the existing members.
    pub commit: Vec<u8>,
    /// TLS encoding of the welcome, for the new member.
    pub welcome: Vec<u8>,
    /// New state blob.
    pub group_state: Vec<u8>,
    /// Epoch after the addition.
    pub epoch: u64,
}

/// The result of removing a member.
#[derive(Debug, Clone)]
pub struct RemoveMemberResult {
    /// TLS encoding of the commit, for the remaining members.
    pub commit: Vec<u8>,
    /// New state blob.
    pub group_state: Vec<u8>,
    /// Epoch after the removal.
    pub epoch: u64,
}

/// The result of encrypting for the group.
#[derive(Debug, Clone)]
pub struct EncryptResult {
    /// TLS encoding of the MLS ciphertext.
    pub mls_ciphertext: Vec<u8>,
    /// New state blob.
    pub group_state: Vec<u8>,
    /// Current epoch.
    pub epoch: u64,
}

/// The result of decrypting a group message.
#[derive(Debug, Clone)]
pub struct DecryptResult {
    /// The application data; empty where the message was a commit or a proposal.
    pub plaintext: Vec<u8>,
    /// New state blob.
    pub group_state: Vec<u8>,
}

/// The result of processing a commit.
#[derive(Debug, Clone)]
pub struct ProcessCommitResult {
    /// New state blob.
    pub group_state: Vec<u8>,
    /// Epoch after the commit.
    pub epoch: u64,
}

/// The result of joining through a welcome.
#[derive(Debug, Clone)]
pub struct ProcessWelcomeResult {
    /// State blob of the joined group.
    pub group_state: Vec<u8>,
    /// The group's identifier.
    pub group_id: Vec<u8>,
    /// Its epoch.
    pub epoch: u64,
}

/// `text` begins with `prefix`.
pub open spec fn starts_with(text: Seq<char>, prefix: Seq<char>) -> bool {
    prefix.len() <= text.len() && text.subrange(0, prefix.len() as int) == prefix
}

/// An error of the kind whose rendering begins with `kind`, whose detail begins with
/// `label`.
pub open spec fn labelled(e: CryptoError, kind: Seq<char>, label: Seq<char>) -> bool {
    e.prefix() == kind && starts_with(e.detail(), label)
}

/// A blob written for a group's state.
pub open spec fn state_blob(bytes: Seq<u8>) -> bool {
    exists|f: BundleFields| #[trigger] written_for(bytes, true, f)
}

/// A blob written for a key package's secrets.
pub open spec fn secret_blob(bytes: Seq<u8>) -> bool {
    exists|f: BundleFields| #[trigger] written_for(bytes, false, f)
}

/// The fields a blob was written for; a blob written at all determines them.
pub open spec fn blob_fields(bytes: Seq<u8>, with_group_id: bool) -> BundleFields {
    choose|f: BundleFields| #[trigger] written_for(bytes, with_group_id, f)
}

/// The key-store entries (key text, value text) recorded in a group's state blob.
pub open spec fn state_store(bytes: Seq<u8>) -> Seq<(Seq<u8>, Seq<u8>)> {
    blob_fields(bytes, true).store
}

/// The key-store entries (key text, value text) recorded in a key package's secrets.
pub open spec fn secret_store(bytes: Seq<u8>) -> Seq<(Seq<u8>, Seq<u8>)> {
    blob_fields(bytes, false).store
}

/// A text that begins with one character cannot begin with, or be, a text that begins
/// with another.
proof fn lemma_first_char_differs(d: Seq<char>, a: Seq<char>, b: Seq<char>)
    requires
        starts_with(d, a),
        a.len() > 0,
        b.len() > 0,
        a[0] != b[0],
    ensures
        !starts_with(d, b),
        d != b,
{
    assert(d[0] == d.subrange(0, a.len() as int)[0]);
    if b.len() <= d.len() {
        assert(d.subrange(0, b.len() as int)[0] == d[0]);
    }
}

/// The detail of the error for a blob that is not a state blob.
pub open spec fn malformed_blob_text() -> Seq<char> {
    "not a valid state blob"@
}

/// Every key and value text of the store is valid base64.
pub open spec fn store_decodes(es: Seq<(Seq<u8>, Seq<u8>)>) -> bool {
    forall|i: int| 0 <= i < es.len() ==> (#[trigger] base64_value(es[i].0)) is Some && base64_value(es[i].1) is Some
}

/// The library's refusal of a blob that is not a group's state blob.
pub open spec fn malformed_blob_error(e: CryptoError) -> bool {
    e matches CryptoError::Serialization(m) && m@ == malformed_blob_text()
}

/// The library's refusal of a key-package secret bundle that is not one.
pub open spec fn malformed_secrets_error(e: CryptoError) -> bool {
    e matches CryptoError::Serialization(m) && m@ == malformed_secrets_text()
}

/// The library's refusal of stored key-store entries that are not base64.
pub open spec fn base64_store_error(e: CryptoError) -> bool {
    labelled(e, "Serialization error: "@, "invalid base64 "@)
}

/// The library's own refusals of a group's state blob come only on such blobs: the
/// malformed-blob error only for a blob that is not a state blob, and the invalid-base64
/// error only for a state blob whose key-store entries do not all decode.
pub open spec fn blob_refusals_only_if(e: CryptoError, group_state: Seq<u8>) -> bool {
    &&& malformed_blob_error(e) ==> !state_blob(group_state)
    &&& base64_store_error(e) ==> state_blob(group_state) && !store_decodes(state_store(group_state))
}

/// The library's own refusals of a secret bundle come only on such bundles.
pub open spec fn secret_refusals_only_if(e: CryptoError, secret_bundle: Seq<u8>) -> bool {
    &&& malformed_secrets_error(e) ==> !secret_blob(secret_bundle)
    &&& base64_store_error(e) ==> secret_blob(secret_bundle) && !store_decodes(secret_store(secret_bundle))
}

/// An error that is none of the library's refusals of a state blob or a secret bundle.
pub open spec fn not_blob_refusal(e: CryptoError) -> bool {
    !malformed_blob_error(e) && !malformed_secrets_error(e) && !base64_store_error(e)
}

/// Two labels that differ at one place cannot both begin a text, and a text that begins
/// with one is not the other.
proof fn lemma_labels_differ(d: Seq<char>, a: Seq<char>, b: Seq<char>, k: int)
    requires
        starts_with(d, a),
        0 <= k < a.len(),
        k < b.len(),
        a[k] != b[k],
    ensures
        !starts_with(d, b),
        d != b,
{
    assert(d[k] == d.subrange(0, a.len() as int)[k]);
    if b.len() <= d.len() {
        assert(d.subrange(0, b.len() as int)[k] == d[k]);
    }
}

/// A text labelled by one of these error kinds is not a refusal of a blob.
proof fn lemma_other_kind(e: CryptoError, kind: Seq<char>)
    requires
        e.prefix() == kind,
        kind.len() > 0,
        kind[0] != 'S',
    ensures
        not_blob_refusal(e),
{
    reveal_strlit("Serialization error: ");
    assert(kind[0] != "Serialization error: "@[0]);
}

/// The decimal numbers of `s` separated by `, `.
pub open spec fn debug_numbers(s: Seq<u8>) -> Seq<char>
    decreases s.len(),
{
    if s.len() == 0 {
        Seq::empty()
    } else if s.len() == 1 {
        decimal_text(s[0] as nat)
    } else {
        debug_numbers(s.drop_last()) + ", "@ + decimal_text(s.last() as nat)
    }
}

/// The debug rendering of a byte slice: `[1, 2, 3]`.
pub open spec fn debug_bytes(s: Seq<u8>) -> Seq<char> {
    "["@ + debug_numbers(s) + "]"@
}

/// The ways loading a group's state can fail.
pub open spec fn load_failure(e: CryptoError) -> bool {
    ||| labelled(e, "Serialization error: "@, malformed_blob_text())
    ||| labelled(e, "Serialization error: "@, "invalid base64 "@)
    ||| labelled(e, "Serialization error: "@, "signer: "@)
    ||| labelled(e, "Serialization error: "@, "credential: "@)
    ||| labelled(e, "Serialization error: "@, "group_id: "@)
    ||| labelled(e, "MLS error: "@, "storage error loading group: "@)
    ||| labelled(e, "MLS group not found: "@, "no group found for id "@)
}

/// The ways saving a group's state, or writing an MLS message, can fail: a serde_json or
/// TLS encoding error.
pub open spec fn save_failure(e: CryptoError) -> bool {
    e.prefix() == "Serialization error: "@
}

/// The label text followed by the detail.
fn labelled_text(label: &str, detail: &str) -> (r: String)
    ensures
        r@ == label@ + detail@,
{
    let mut s = String::from_str(label);
    s.append(detail);
    s
}

proof fn lemma_labelled(label: Seq<char>, detail: Seq<char>)
    ensures
        starts_with(label + detail, label),
{
    assert((label + detail).subrange(0, label.len() as int) =~= label);
}

/// The debug rendering of a byte slice.
fn debug_byte_list(bytes: &[u8]) -> (r: String)
    ensures
        r@ == debug_bytes(bytes@),
{
    proof {
        reveal_strlit("[");
        reveal_strlit("]");
        reveal_strlit(", ");
    }
    let mut s = String::from_str("[");
    let mut i: usize = 0;
    while i < bytes.len()
        invariant
            i <= bytes@.len(),
            s@ == "["@ + debug_numbers(bytes@.take(i as int)),
        decreases bytes@.len() - i,
    {
        let ghost before = s@;
        if i > 0 {
            s.append(", ");
        }
        append_decimal(&mut s, bytes[i] as u64);
        proof {
            let t = bytes@.take(i + 1);
            assert(t.drop_last() =~= bytes@.take(i as int));
            if i == 0 {
                assert(bytes@.take(0) =~= Seq::<u8>::empty());
                assert(s@ =~= "["@ + debug_numbers(t));
            } else {
                assert(s@ =~= "["@ + debug_numbers(t));
            }
        }
        i = i + 1;
    }
    assert(bytes@.take(bytes@.len() as int) =~= bytes@);
    s.append("]");
    s
}

/// The ciphersuite of every group and key package.
fn ghostcrypt_ciphersuite() -> (r: Ciphersuite) {
    ciphersuite_from_code(CIPHERSUITE_CODE).unwrap()
}

proof fn lemma_base64_plain(text: Seq<u8>)
    requires
        forall|i: int| 0 <= i < text.len() ==> base64_symbol(#[trigger] text[i]),
    ensures
        plain_text(text),
{
    assert forall|i: int| 0 <= i < text.len() implies plain_byte(#[trigger] text[i]) by {
        assert(base64_symbol(text[i]));
    }
}

/// `out` holds, entry by entry and in the same order, the base64 texts of the key and
/// the value of each entry of `entries`.
pub open spec fn encodes_entries(entries: Seq<(Seq<u8>, Seq<u8>)>, out: Seq<(Seq<u8>, Seq<u8>)>) -> bool {
    &&& out.len() == entries.len()
    &&& forall|i: int|
        0 <= i < entries.len() ==> #[trigger] out[i] == (base64_text(entries[i].0), base64_text(entries[i].1))
}

/// The provider's key store as base64 text, key and value: the entries the store held
/// when it was read (in its iteration order, no key twice), each key and value encoded.
fn snapshot_store(provider: &OpenMlsRustCrypto) -> (r: Vec<(Vec<u8>, Vec<u8>)>)
    ensures
        exists|entries: Seq<(Seq<u8>, Seq<u8>)>|
            #[trigger] encodes_entries(entries, entries_view(r@)) && forall|i: int, j: int|
                0 <= i < j < entries.len() ==> entries[i].0 != entries[j].0,
        store_plain(entries_view(r@)),
        store_decodes(entries_view(r@)),
{
    let entries = storage_entries(provider);
    let ghost read = entries_view(entries@);
    let mut out: Vec<(Vec<u8>, Vec<u8>)> = Vec::new();
    let mut i: usize = 0;
    while i < entries.len()
        invariant
            i <= entries@.len(),
            read == entries_view(entries@),
            out@.len() == i,
            encodes_entries(read.take(i as int), entries_view(out@)),
            store_plain(entries_view(out@)),
            store_decodes(entries_view(out@)),
        decreases entries@.len() - i,
    {
        let key = base64_encode(entries[i].0.as_slice());
        let value = base64_encode(entries[i].1.as_slice());
        proof {
            lemma_base64_plain(key@);
            lemma_base64_plain(value@);
        }
        let ghost before = entries_view(out@);
        let ghost pair = (key@, value@);
        out.push((key, value));
        proof {
            let es = entries_view(out@);
            assert(es =~= before.push(pair));
            assert forall|j: int| 0 <= j < es.len() implies plain_text(#[trigger] es[j].0) && plain_text(
                es[j].1,
            ) by {
                if j < before.len() {
                    assert(es[j] == before[j]);
                }
            }
            assert forall|j: int| 0 <= j < es.len() implies (#[trigger] base64_value(es[j].0)) is Some
                && base64_value(es[j].1) is Some by {
                if j < before.len() {
                    assert(es[j] == before[j]);
                }
            }
            let taken = read.take(i + 1);
            assert forall|j: int| 0 <= j < taken.len() implies #[trigger] es[j] == (
                base64_text(taken[j].0),
                base64_text(taken[j].1),
            ) by {
                if j < before.len() {
                    assert(es[j] == before[j]);
                    assert(taken[j] == read.take(i as int)[j]);
                }
            }
        }
        i = i + 1;
    }
    proof {
        assert(read.take(entries@.len() as int) =~= read);
        assert forall|a: int, b: int| 0 <= a < b < read.len() implies read[a].0 != read[b].0 by {
            assert(entries@[a].0@ != entries@[b].0@);
        }
    }
    out
}

/// Load the base64 text entries into the provider's key store.
fn restore_store(provider: &OpenMlsRustCrypto, store: &Vec<(Vec<u8>, Vec<u8>)>) -> (r: Result<(), CryptoError>)
    ensures
        r is Ok <==> store_decodes(entries_view(store@)),
        r matches Err(e) ==> labelled(e, "Serialization error: "@, "invalid base64 "@),
{
    let mut i: usize = 0;
    while i < store.len()
        invariant
            i <= store@.len(),
            forall|j: int| 0 <= j < i ==> (#[trigger] base64_value(entries_view(store@)[j].0)) is Some
                && base64_value(entries_view(store@)[j].1) is Some,
        decreases store@.len() - i,
    {
        let key = match base64_decode(store[i].0.as_slice()) {
            Ok(k) => k,
            Err(_) => {
                let e = CryptoError::Serialization(labelled_text("invalid base64 ", "key"));
                proof {
                    lemma_labelled("invalid base64 "@, "key"@);
                    assert(base64_value(entries_view(store@)[i as int].0) is None);
                }
                return Err(e);
            },
        };
        let value = match base64_decode(store[i].1.as_slice()) {
            Ok(v) => v,
            Err(_) => {
                let e = CryptoError::Serialization(labelled_text("invalid base64 ", "value"));
                proof {
                    lemma_labelled("invalid base64 "@, "value"@);
                    assert(base64_value(entries_view(store@)[i as int].1) is None);
                }
                return Err(e);
            },
        };
        storage_insert(provider, key, value);
        i = i + 1;
    }
    Ok(())
}

/// A provider whose key store holds the decoded entries.
fn provider_from_store(store: &Vec<(Vec<u8>, Vec<u8>)>) -> (r: Result<OpenMlsRustCrypto, CryptoError>)
    ensures
        r is Ok <==> store_decodes(entries_view(store@)),
        r matches Err(e) ==> labelled(e, "Serialization error: "@, "invalid base64 "@),
{
    let provider = new_provider();
    match restore_store(&provider, store) {
        Ok(()) => Ok(provider),
        Err(e) => Err(e),
    }
}

/// An error of the given kind whose detail is `label` followed by the outside error's
/// text.
fn serialization_error(label: &str, detail: String) -> (r: CryptoError)
    ensures
        labelled(r, "Serialization error: "@, label@),
        label@.len() > 1 && label@[0] != 'n' && label@[0] != 'i' && (label@[0] != 's' || label@[1] != 'e')
            ==> not_blob_refusal(r),
{
    let r = CryptoError::Serialization(labelled_text(label, detail.as_str()));
    proof {
        lemma_labelled(label@, detail@);
        reveal_strlit("not a valid state blob");
        reveal_strlit("invalid base64 ");
        reveal_strlit("secret bundle: ");
        if label@.len() > 1 && label@[0] != 'n' && label@[0] != 'i' && (label@[0] != 's' || label@[1] != 'e') {
            lemma_labels_differ(r.detail(), label@, malformed_blob_text(), 0);
            lemma_labels_differ(r.detail(), label@, "invalid base64 "@, 0);
            assert(malformed_secrets_text()[0] == 's' && malformed_secrets_text()[1] == 'e');
            if label@[0] != 's' {
                lemma_labels_differ(r.detail(), label@, malformed_secrets_text(), 0);
            } else {
                lemma_labels_differ(r.detail(), label@, malformed_secrets_text(), 1);
            }
        }
    }
    r
}

fn mls_error(label: &str, detail: String) -> (r: CryptoError)
    ensures
        not_blob_refusal(r),
        labelled(r, "MLS error: "@, label@),
        r matches CryptoError::Mls(m) && m@ == label@ + detail@,
{
    let r = CryptoError::Mls(labelled_text(label, detail.as_str()));
    proof {
        lemma_labelled(label@, detail@);
        reveal_strlit("MLS error: ");
        lemma_other_kind(r, "MLS error: "@);
    }
    r
}

fn key_generation_error(label: &str, detail: String) -> (r: CryptoError)
    ensures
        not_blob_refusal(r),
        labelled(r, "Key generation failed: "@, label@),
{
    let r = CryptoError::KeyGeneration(labelled_text(label, detail.as_str()));
    proof {
        lemma_labelled(label@, detail@);
        reveal_strlit("Key generation failed: ");
        lemma_other_kind(r, "Key generation failed: "@);
    }
    r
}

fn decryption_error(label: &str, detail: String) -> (r: CryptoError)
    ensures
        not_blob_refusal(r),
        labelled(r, "Decryption failed: "@, label@),
{
    let r = CryptoError::Decryption(labelled_text(label, detail.as_str()));
    proof {
        lemma_labelled(label@, detail@);
        reveal_strlit("Decryption failed: ");
        lemma_other_kind(r, "Decryption failed: "@);
    }
    r
}

/// A group loaded from its state, with what operating on it takes.
struct LoadedGroup {
    group: MlsGroup,
    provider: OpenMlsRustCrypto,
    signer: SignatureKeyPair,
    credential_with_key: CredentialWithKey,
}

/// The error for a blob that is not a state blob.
fn malformed_blob() -> (r: CryptoError)
    ensures
        r matches CryptoError::Serialization(m) && m@ == malformed_blob_text(),
        labelled(r, "Serialization error: "@, malformed_blob_text()),
        !labelled(r, "Serialization error: "@, "invalid base64 "@),
{
    let r = CryptoError::Serialization(String::from_str("not a valid state blob"));
    proof {
        reveal_strlit("not a valid state blob");
        reveal_strlit("invalid base64 ");
        assert(r.detail().subrange(0, malformed_blob_text().len() as int) =~= malformed_blob_text());
        lemma_first_char_differs(r.detail(), malformed_blob_text(), "invalid base64 "@);
    }
    r
}

/// Rebuild a group from its state blob. The blob is refused as malformed exactly when it
/// is not a state blob, and with an invalid-base64 error exactly when it is one whose
/// key-store entries do not all decode.
fn load_group(group_state: &[u8]) -> (r: Result<LoadedGroup, CryptoError>)
    ensures
        !state_blob(group_state@) ==> (r matches Err(e) && e matches CryptoError::Serialization(m) && m@
            == malformed_blob_text()),
        state_blob(group_state@) && !store_decodes(state_store(group_state@)) ==> (r matches Err(e)
            && labelled(e, "Serialization error: "@, "invalid base64 "@)),
        r matches Err(e) ==> load_failure(e),
        r matches Err(e) ==> ((e matches CryptoError::Serialization(m) && m@ == malformed_blob_text())
            ==> !state_blob(group_state@)),
        r matches Err(e) ==> (labelled(e, "Serialization error: "@, "invalid base64 "@) ==> state_blob(
            group_state@,
        ) && !store_decodes(state_store(group_state@))),
        r matches Err(e) ==> blob_refusals_only_if(e, group_state@),
{
    proof {
        reveal_strlit("not a valid state blob");
        reveal_strlit("invalid base64 ");
        reveal_strlit("signer: ");
        reveal_strlit("credential: ");
        reveal_strlit("group_id: ");
        reveal_strlit("Serialization error: ");
        reveal_strlit("MLS error: ");
        reveal_strlit("MLS group not found: ");
        if state_blob(group_state@) {
            assert(written_for(group_state@, true, blob_fields(group_state@, true)));
        }
    }
    let bundle = match parse_bundle(group_state, true, Ghost(blob_fields(group_state@, true))) {
        Some(b) => b,
        None => {
            return Err(malformed_blob());
        },
    };
    assert(state_blob(group_state@));
    assert(bundle@ == blob_fields(group_state@, true));
    let provider = match provider_from_store(&bundle.store) {
        Ok(p) => p,
        Err(e) => {
            proof {
                lemma_first_char_differs(e.detail(), "invalid base64 "@, malformed_blob_text());
            }
            return Err(e);
        },
    };
    let signer = match signer_from_json(bundle.signer.as_slice()) {
        Ok(s) => s,
        Err(e) => {
            let r = serialization_error("signer: ", e);
            proof {
                lemma_first_char_differs(r.detail(), "signer: "@, "invalid base64 "@);
                lemma_first_char_differs(r.detail(), "signer: "@, malformed_blob_text());
            }
            return Err(r);
        },
    };
    let credential = match credential_from_json(bundle.credential_with_key.as_slice()) {
        Ok(c) => c,
        Err(e) => {
            let r = serialization_error("credential: ", e);
            proof {
                lemma_first_char_differs(r.detail(), "credential: "@, "invalid base64 "@);
                lemma_first_char_differs(r.detail(), "credential: "@, malformed_blob_text());
            }
            return Err(r);
        },
    };
    let group_id_text: &[u8] = match &bundle.group_id {
        Some(g) => g.as_slice(),
        None => {
            return Err(malformed_blob());
        },
    };
    let group_id = match group_id_from_json(group_id_text) {
        Ok(g) => g,
        Err(e) => {
            let r = serialization_error("group_id: ", e);
            proof {
                lemma_first_char_differs(r.detail(), "group_id: "@, "invalid base64 "@);
                lemma_first_char_differs(r.detail(), "group_id: "@, malformed_blob_text());
            }
            return Err(r);
        },
    };
    let group = match load_stored_group(&provider, &group_id) {
        Ok(Some(g)) => g,
        Ok(None) => {
            let shown = debug_byte_list(group_id_bytes(&group_id).as_slice());
            let r = CryptoError::MlsGroupNotFound(labelled_text("no group found for id ", shown.as_str()));
            proof {
                lemma_labelled("no group found for id "@, shown@);
                assert(r.prefix()[0] != "Serialization error: "@[0]);
            }
            return Err(r);
        },
        Err(e) => {
            let r = mls_error("storage error loading group: ", e);
            proof {
                assert(r.prefix()[0] != "Serialization error: "@[0]);
            }
            return Err(r);
        },
    };
    Ok(LoadedGroup { group, provider, signer, credential_with_key: credential })
}

/// Write the state blob of a group.
fn save_group(
    group: &MlsGroup,
    provider: &OpenMlsRustCrypto,
    signer: &SignatureKeyPair,
    credential: &CredentialWithKey,
) -> (r: Result<Vec<u8>, CryptoError>)
    ensures
        r matches Ok(b) ==> state_blob(b@),
        r matches Err(e) ==> save_failure(e),
        r is Ok,
{
    let store = snapshot_store(provider);
    let signer_bytes = match signer_json(signer) {
        Ok(b) => b,
        Err(e) => {
            return Err(CryptoError::Serialization(e));
        },
    };
    let credential_bytes = match credential_json(credential) {
        Ok(b) => b,
        Err(e) => {
            return Err(CryptoError::Serialization(e));
        },
    };
    let group_id_bytes = match group_id_json(&group_id_of(group)) {
        Ok(b) => b,
        Err(e) => {
            return Err(CryptoError::Serialization(e));
        },
    };
    let bundle = StateBundle {
        store,
        signer: signer_bytes,
        credential_with_key: credential_bytes,
        group_id: Some(group_id_bytes),
    };
    let blob = encode_bundle(&bundle);
    assert(written_for(blob@, true, bundle@));
    Ok(blob)
}

/// The TLS encoding of an outgoing MLS message.
fn serialize_mls_message(message: &MlsMessageOut) -> (r: Result<Vec<u8>, CryptoError>)
    ensures
        r matches Err(e) ==> labelled(e, "Serialization error: "@, "tls_serialize: "@),
        r matches Err(e) ==> not_blob_refusal(e),
        r matches Ok(b) ==> b@.len() >= 4,
{
    proof {
        reveal_strlit("tls_serialize: ");
    }
    match mls_message_tls(message) {
        Ok(b) => Ok(b),
        Err(e) => Err(serialization_error("tls_serialize: ", e)),
    }
}

/// An incoming MLS message from its TLS encoding.
fn deserialize_mls_message(bytes: &[u8]) -> (r: Result<MlsMessageIn, CryptoError>)
    ensures
        r matches Err(e) ==> labelled(e, "Serialization error: "@, "tls_deserialize MlsMessageIn: "@),
        r matches Err(e) ==> not_blob_refusal(e),
{
    proof {
        reveal_strlit("tls_deserialize MlsMessageIn: ");
    }
    match mls_message_from_tls(bytes) {
        Ok(m) => Ok(m),
        Err(e) => Err(serialization_error("tls_deserialize MlsMessageIn: ", e)),
    }
}

fn encryption_error(label: &str, detail: String) -> (r: CryptoError)
    ensures
        not_blob_refusal(r),
        labelled(r, "Encryption failed: "@, label@),
{
    let r = CryptoError::Encryption(labelled_text(label, detail.as_str()));
    proof {
        lemma_labelled(label@, detail@);
        reveal_strlit("Encryption failed: ");
        lemma_other_kind(r, "Encryption failed: "@);
    }
    r
}

/// The ways generating a key package can fail.
pub open spec fn key_package_failure(e: CryptoError) -> bool {
    ||| labelled(e, "Key generation failed: "@, "signature keypair: "@)
    ||| labelled(e, "Key generation failed: "@, "store signer: "@)
    ||| labelled(e, "Key generation failed: "@, "key package build: "@)
    ||| labelled(e, "Serialization error: "@, "key package tls: "@)
    ||| save_failure(e)
}

/// Generate a key package for `identity`, with the secrets that a welcome for it will
/// need.
pub fn generate_key_package(identity: &[u8]) -> (r: Result<MlsKeyPackageResult, CryptoError>)
    ensures
        r matches Ok(res) ==> secret_blob(res.secret_bundle@),
        r matches Err(e) ==> key_package_failure(e),
{
    let suite = ghostcrypt_ciphersuite();
    let provider = new_provider();
    let signer = match new_signer(suite) {
        Ok(s) => s,
        Err(e) => {
            return Err(key_generation_error("signature keypair: ", e));
        },
    };
    match store_signer(&signer, &provider) {
        Ok(()) => {},
        Err(e) => {
            return Err(key_generation_error("store signer: ", e));
        },
    }
    let credential = credential_with_key(identity, &signer);
    let key_package = match build_key_package(CIPHERSUITE_CODE, &provider, &signer, copy_credential(&credential)) {
        Ok(k) => k,
        Err(e) => {
            return Err(key_generation_error("key package build: ", e));
        },
    };
    let key_package_bytes = match key_package_tls(&key_package) {
        Ok(b) => b,
        Err(e) => {
            return Err(serialization_error("key package tls: ", e));
        },
    };
    let store = snapshot_store(&provider);
    let signer_bytes = match signer_json(&signer) {
        Ok(b) => b,
        Err(e) => {
            return Err(CryptoError::Serialization(e));
        },
    };
    let credential_bytes = match credential_json(&credential) {
        Ok(b) => b,
        Err(e) => {
            return Err(CryptoError::Serialization(e));
        },
    };
    let secrets = StateBundle { store, signer: signer_bytes, credential_with_key: credential_bytes, group_id: None };
    let secret_bundle = encode_bundle(&secrets);
    assert(written_for(secret_bundle@, false, secrets@));
    Ok(MlsKeyPackageResult { key_package: key_package_bytes, secret_bundle })
}

/// The ways creating a group can fail.
pub open spec fn create_group_failure(e: CryptoError) -> bool {
    ||| labelled(e, "Key generation failed: "@, "signature keypair: "@)
    ||| labelled(e, "Key generation failed: "@, "store signer: "@)
    ||| labelled(e, "MLS error: "@, "create group: "@)
    ||| save_failure(e)
}

/// Create a group with `identity` as its only member.
pub fn create_group(identity: &[u8]) -> (r: Result<CreateGroupResult, CryptoError>)
    ensures
        r matches Ok(res) ==> state_blob(res.group_state@),
        r matches Ok(res) ==> res.epoch == 0 && res.group_id@.len() == 16,
        r matches Err(e) ==> create_group_failure(e),
{
    let suite = ghostcrypt_ciphersuite();
    let provider = new_provider();
    let signer = match new_signer(suite) {
        Ok(s) => s,
        Err(e) => {
            return Err(key_generation_error("signature keypair: ", e));
        },
    };
    match store_signer(&signer, &provider) {
        Ok(()) => {},
        Err(e) => {
            return Err(key_generation_error("store signer: ", e));
        },
    }
    let credential = credential_with_key(identity, &signer);
    let (group, epoch, group_id) = match new_group(&provider, &signer, CIPHERSUITE_CODE, copy_credential(&credential)) {
        Ok(g) => g,
        Err(e) => {
            return Err(mls_error("create group: ", e));
        },
    };
    let group_state = save_group(&group, &provider, &signer, &credential)?;
    Ok(CreateGroupResult { group_state, group_id, epoch })
}

/// The ways adding a member can fail.
pub open spec fn add_member_failure(e: CryptoError) -> bool {
    ||| load_failure(e)
    ||| labelled(e, "Serialization error: "@, "key package tls deser: "@)
    ||| labelled(e, "MLS error: "@, "key package validation: "@)
    ||| labelled(e, "MLS error: "@, "add_members: "@)
    ||| labelled(e, "MLS error: "@, "merge_pending_commit: "@)
    ||| save_failure(e)
}

/// Add the member of a TLS-encoded key package to the group; the commit is merged.
pub fn add_member(group_state: &[u8], key_package_bytes: &[u8]) -> (r: Result<AddMemberResult, CryptoError>)
    ensures
        !state_blob(group_state@) ==> (r matches Err(e) && e matches CryptoError::Serialization(m) && m@
            == malformed_blob_text()),
        state_blob(group_state@) && !store_decodes(state_store(group_state@)) ==> (r matches Err(e)
            && labelled(e, "Serialization error: "@, "invalid base64 "@)),
        r matches Ok(res) ==> state_blob(res.group_state@),
        r matches Err(e) ==> blob_refusals_only_if(e, group_state@),
        r matches Err(e) ==> add_member_failure(e),
        r matches Ok(res) ==> res.commit@.len() >= 4 && res.welcome@.len() >= 4,
{
    let LoadedGroup { mut group, provider, signer, credential_with_key } = load_group(group_state)?;
    let key_package_in = match key_package_from_tls(key_package_bytes) {
        Ok(k) => k,
        Err(e) => {
            proof {
                reveal_strlit("key package tls deser: ");
            }
            return Err(serialization_error("key package tls deser: ", e));
        },
    };
    let key_package = match validate_key_package(key_package_in, &provider) {
        Ok(k) => k,
        Err(e) => {
            return Err(mls_error("key package validation: ", e));
        },
    };
    let (commit_message, welcome_message) = match add_member_commit(&mut group, &provider, &signer, key_package) {
        Ok(pair) => pair,
        Err(e) => {
            return Err(mls_error("add_members: ", e));
        },
    };
    match merge_pending_commit(&mut group, &provider) {
        Ok(()) => {},
        Err(e) => {
            return Err(mls_error("merge_pending_commit: ", e));
        },
    }
    let epoch = group_epoch(&group);
    let group_state = save_group(&group, &provider, &signer, &credential_with_key)?;
    let commit = serialize_mls_message(&commit_message)?;
    let welcome = serialize_mls_message(&welcome_message)?;
    Ok(AddMemberResult { commit, welcome, group_state, epoch })
}

/// The ways removing a member can fail.
pub open spec fn remove_member_failure(e: CryptoError) -> bool {
    ||| load_failure(e)
    ||| labelled(e, "MLS error: "@, "remove_members: "@)
    ||| labelled(e, "MLS error: "@, "merge_pending_commit: "@)
    ||| save_failure(e)
}

/// Remove the member at `leaf_index` from the group; the commit is merged.
pub fn remove_member(group_state: &[u8], leaf_index: u32) -> (r: Result<RemoveMemberResult, CryptoError>)
    ensures
        !state_blob(group_state@) ==> (r matches Err(e) && e matches CryptoError::Serialization(m) && m@
            == malformed_blob_text()),
        state_blob(group_state@) && !store_decodes(state_store(group_state@)) ==> (r matches Err(e)
            && labelled(e, "Serialization error: "@, "invalid base64 "@)),
        r matches Ok(res) ==> state_blob(res.group_state@),
        r matches Err(e) ==> blob_refusals_only_if(e, group_state@),
        r matches Err(e) ==> remove_member_failure(e),
        r matches Ok(res) ==> res.commit@.len() >= 4,
{
    let LoadedGroup { mut group, provider, signer, credential_with_key } = load_group(group_state)?;
    let commit_message = match remove_member_commit(&mut group, &provider, &signer, leaf_index) {
        Ok(c) => c,
        Err(e) => {
            return Err(mls_error("remove_members: ", e));
        },
    };
    match merge_pending_commit(&mut group, &provider) {
        Ok(()) => {},
        Err(e) => {
            return Err(mls_error("merge_pending_commit: ", e));
        },
    }
    let epoch = group_epoch(&group);
    let group_state = save_group(&group, &provider, &signer, &credential_with_key)?;
    let commit = serialize_mls_message(&commit_message)?;
    Ok(RemoveMemberResult { commit, group_state, epoch })
}

/// The ways encrypting for the group can fail.
pub open spec fn encrypt_message_failure(e: CryptoError) -> bool {
    ||| load_failure(e)
    ||| labelled(e, "Encryption failed: "@, "create_message: "@)
    ||| save_failure(e)
}

/// Encrypt `plaintext` as an application message for the group.
pub fn encrypt_message(group_state: &[u8], plaintext: &[u8]) -> (r: Result<EncryptResult, CryptoError>)
    ensures
        !state_blob(group_state@) ==> (r matches Err(e) && e matches CryptoError::Serialization(m) && m@
            == malformed_blob_text()),
        state_blob(group_state@) && !store_decodes(state_store(group_state@)) ==> (r matches Err(e)
            && labelled(e, "Serialization error: "@, "invalid base64 "@)),
        r matches Ok(res) ==> state_blob(res.group_state@),
        r matches Err(e) ==> blob_refusals_only_if(e, group_state@),
        r matches Err(e) ==> encrypt_message_failure(e),
        r matches Ok(res) ==> res.mls_ciphertext@.len() >= 4,
{
    let LoadedGroup { mut group, provider, signer, credential_with_key } = load_group(group_state)?;
    let message = match create_application_message(&mut group, &provider, &signer, plaintext) {
        Ok(m) => m,
        Err(e) => {
            return Err(encryption_error("create_message: ", e));
        },
    };
    let epoch = group_epoch(&group);
    let group_state = save_group(&group, &provider, &signer, &credential_with_key)?;
    let mls_ciphertext = serialize_mls_message(&message)?;
    Ok(EncryptResult { mls_ciphertext, group_state, epoch })
}

/// Act on a processed group message: application data is handed back; a commit is
/// merged and a proposal stored, and then the data is empty.
pub fn apply_content(group: &mut MlsGroup, provider: &OpenMlsRustCrypto, content: GroupMessageContent) -> (r: Result<Vec<u8>, CryptoError>)
    ensures
        r matches Err(e) ==> not_blob_refusal(e),
        content matches GroupMessageContent::Application(b) ==> (r matches Ok(p) && p@ == b@),
        !(content is Application) ==> (r matches Ok(p) ==> p@.len() == 0),
        content is Commit ==> (r matches Err(e) ==> labelled(e, "MLS error: "@, "merge_staged_commit: "@)),
        (content is Proposal || content is ExternalJoinProposal) ==> (r matches Err(e) ==> labelled(
            e,
            "MLS error: "@,
            "store_pending_proposal: "@,
        )),
{
    match content {
        GroupMessageContent::Application(bytes) => Ok(bytes),
        GroupMessageContent::Commit(commit) => {
            match merge_staged_commit(group, provider, commit) {
                Ok(()) => Ok(Vec::new()),
                Err(e) => Err(mls_error("merge_staged_commit: ", e)),
            }
        },
        GroupMessageContent::Proposal(proposal) => {
            match store_pending_proposal(group, provider, proposal) {
                Ok(()) => Ok(Vec::new()),
                Err(e) => Err(mls_error("store_pending_proposal: ", e)),
            }
        },
        GroupMessageContent::ExternalJoinProposal(proposal) => {
            match store_pending_proposal(group, provider, proposal) {
                Ok(()) => Ok(Vec::new()),
                Err(e) => Err(mls_error("store_pending_proposal: ", e)),
            }
        },
    }
}

/// The ways decrypting a group message can fail.
pub open spec fn decrypt_message_failure(e: CryptoError) -> bool {
    ||| load_failure(e)
    ||| labelled(e, "Serialization error: "@, "tls_deserialize MlsMessageIn: "@)
    ||| labelled(e, "Decryption failed: "@, "not a protocol message: "@)
    ||| labelled(e, "Decryption failed: "@, "process_message: "@)
    ||| labelled(e, "MLS error: "@, "merge_staged_commit: "@)
    ||| labelled(e, "MLS error: "@, "store_pending_proposal: "@)
    ||| save_failure(e)
}

/// Process a TLS-encoded message received by the group: application data is
/// decrypted; a commit is merged and a proposal stored, with empty data.
pub fn decrypt_message(group_state: &[u8], mls_message_bytes: &[u8]) -> (r: Result<DecryptResult, CryptoError>)
    ensures
        !state_blob(group_state@) ==> (r matches Err(e) && e matches CryptoError::Serialization(m) && m@
            == malformed_blob_text()),
        state_blob(group_state@) && !store_decodes(state_store(group_state@)) ==> (r matches Err(e)
            && labelled(e, "Serialization error: "@, "invalid base64 "@)),
        r matches Ok(res) ==> state_blob(res.group_state@),
        r matches Err(e) ==> blob_refusals_only_if(e, group_state@),
        r matches Err(e) ==> decrypt_message_failure(e),
{
    let LoadedGroup { mut group, provider, signer, credential_with_key } = load_group(group_state)?;
    let message_in = deserialize_mls_message(mls_message_bytes)?;
    let protocol_message = match protocol_message_of(message_in) {
        Ok(m) => m,
        Err(e) => {
            return Err(decryption_error("not a protocol message: ", e));
        },
    };
    let processed = match process_protocol_message(&mut group, &provider, protocol_message) {
        Ok(p) => p,
        Err(e) => {
            return Err(decryption_error("process_message: ", e));
        },
    };
    let (content, _shown) = message_content(processed);
    let plaintext = apply_content(&mut group, &provider, content)?;
    let group_state = save_group(&group, &provider, &signer, &credential_with_key)?;
    Ok(DecryptResult { plaintext, group_state })
}

/// The ways processing a commit can fail.
pub open spec fn process_commit_failure(e: CryptoError) -> bool {
    ||| load_failure(e)
    ||| labelled(e, "Serialization error: "@, "tls_deserialize MlsMessageIn: "@)
    ||| labelled(e, "MLS error: "@, "not a protocol message: "@)
    ||| labelled(e, "MLS error: "@, "process_message: "@)
    ||| labelled(e, "MLS error: "@, "merge_staged_commit: "@)
    ||| labelled(e, "MLS error: "@, "expected a commit message, got: "@)
    ||| save_failure(e)
}

/// Act on processed content that should be a commit: a commit is merged; any other
/// content is refused with its debug text `shown`.
pub fn apply_commit(group: &mut MlsGroup, provider: &OpenMlsRustCrypto, content: GroupMessageContent, shown: String) -> (r: Result<(), CryptoError>)
    ensures
        r matches Err(e) ==> not_blob_refusal(e),
        !(content is Commit) ==> (r matches Err(e) && e matches CryptoError::Mls(m) && m@
            == "expected a commit message, got: "@ + shown@),
        content is Commit ==> (r matches Err(e) ==> labelled(e, "MLS error: "@, "merge_staged_commit: "@)),
        r matches Err(e) ==> labelled(e, "MLS error: "@, "merge_staged_commit: "@) || labelled(
            e,
            "MLS error: "@,
            "expected a commit message, got: "@,
        ),
{
    match content {
        GroupMessageContent::Commit(commit) => {
            match merge_staged_commit(group, provider, commit) {
                Ok(()) => Ok(()),
                Err(e) => Err(mls_error("merge_staged_commit: ", e)),
            }
        },
        _ => {
            let r = mls_error("expected a commit message, got: ", shown);
            Err(r)
        },
    }
}

/// Process a TLS-encoded commit from another member and merge it.
pub fn process_commit(group_state: &[u8], commit_bytes: &[u8]) -> (r: Result<ProcessCommitResult, CryptoError>)
    ensures
        !state_blob(group_state@) ==> (r matches Err(e) && e matches CryptoError::Serialization(m) && m@
            == malformed_blob_text()),
        state_blob(group_state@) && !store_decodes(state_store(group_state@)) ==> (r matches Err(e)
            && labelled(e, "Serialization error: "@, "invalid base64 "@)),
        r matches Ok(res) ==> state_blob(res.group_state@),
        r matches Err(e) ==> blob_refusals_only_if(e, group_state@),
        r matches Err(e) ==> process_commit_failure(e),
{
    let LoadedGroup { mut group, provider, signer, credential_with_key } = load_group(group_state)?;
    let message_in = deserialize_mls_message(commit_bytes)?;
    let protocol_message = match protocol_message_of(message_in) {
        Ok(m) => m,
        Err(e) => {
            return Err(mls_error("not a protocol message: ", e));
        },
    };
    let processed = match process_protocol_message(&mut group, &provider, protocol_message) {
        Ok(p) => p,
        Err(e) => {
            return Err(mls_error("process_message: ", e));
        },
    };
    let (content, shown) = message_content(processed);
    apply_commit(&mut group, &provider, content, shown)?;
    let epoch = group_epoch(&group);
    let group_state = save_group(&group, &provider, &signer, &credential_with_key)?;
    Ok(ProcessCommitResult { group_state, epoch })
}

/// The detail of the error for secrets that are not a key package's secret blob.
pub open spec fn malformed_secrets_text() -> Seq<char> {
    "secret bundle: "@ + malformed_blob_text()
}

/// The ways joining through a welcome can fail.
pub open spec fn process_welcome_failure(e: CryptoError) -> bool {
    ||| labelled(e, "Serialization error: "@, "secret bundle: "@)
    ||| labelled(e, "Serialization error: "@, "invalid base64 "@)
    ||| labelled(e, "Serialization error: "@, "signer: "@)
    ||| labelled(e, "Serialization error: "@, "credential: "@)
    ||| labelled(e, "Serialization error: "@, "tls_deserialize MlsMessageIn: "@)
    ||| labelled(e, "MLS error: "@, "expected a Welcome message"@)
    ||| labelled(e, "MLS error: "@, "staged welcome: "@)
    ||| labelled(e, "MLS error: "@, "welcome into_group: "@)
    ||| save_failure(e)
}

/// Join a group through a TLS-encoded welcome, with the secrets of the key package it
/// was made for.
pub fn process_welcome(welcome_bytes: &[u8], secret_bundle_bytes: &[u8]) -> (r: Result<ProcessWelcomeResult, CryptoError>)
    ensures
        !secret_blob(secret_bundle_bytes@) ==> (r matches Err(e) && e matches CryptoError::Serialization(m)
            && m@ == malformed_secrets_text()),
        secret_blob(secret_bundle_bytes@) && !store_decodes(secret_store(secret_bundle_bytes@)) ==> (r matches Err(
            e,
        ) && labelled(e, "Serialization error: "@, "invalid base64 "@)),
        r matches Err(e) ==> secret_refusals_only_if(e, secret_bundle_bytes@),
        r matches Ok(res) ==> state_blob(res.group_state@),
        r matches Err(e) ==> process_welcome_failure(e),
{
    proof {
        if secret_blob(secret_bundle_bytes@) {
            assert(written_for(secret_bundle_bytes@, false, blob_fields(secret_bundle_bytes@, false)));
        }
    }
    let secrets = match parse_bundle(secret_bundle_bytes, false, Ghost(blob_fields(secret_bundle_bytes@, false))) {
        Some(b) => b,
        None => {
            let r = CryptoError::Serialization(labelled_text("secret bundle: ", "not a valid state blob"));
            proof {
                lemma_labelled("secret bundle: "@, "not a valid state blob"@);
                reveal_strlit("secret bundle: ");
                reveal_strlit("invalid base64 ");
                lemma_labels_differ(r.detail(), "secret bundle: "@, "invalid base64 "@, 0);
            }
            return Err(r);
        },
    };
    assert(secret_blob(secret_bundle_bytes@));
    assert(secrets@ == blob_fields(secret_bundle_bytes@, false));
    let provider = match provider_from_store(&secrets.store) {
        Ok(p) => p,
        Err(e) => {
            proof {
                reveal_strlit("secret bundle: ");
                reveal_strlit("invalid base64 ");
                assert(malformed_secrets_text()[0] == 's');
                lemma_labels_differ(e.detail(), "invalid base64 "@, malformed_secrets_text(), 0);
            }
            return Err(e);
        },
    };
    let signer = match signer_from_json(secrets.signer.as_slice()) {
        Ok(s) => s,
        Err(e) => {
            proof {
                reveal_strlit("signer: ");
            }
            return Err(serialization_error("signer: ", e));
        },
    };
    let credential = match credential_from_json(secrets.credential_with_key.as_slice()) {
        Ok(c) => c,
        Err(e) => {
            proof {
                reveal_strlit("credential: ");
            }
            return Err(serialization_error("credential: ", e));
        },
    };
    let message_in = deserialize_mls_message(welcome_bytes)?;
    let welcome = match welcome_of(message_in) {
        Some(w) => w,
        None => {
            let r = CryptoError::Mls(String::from_str("expected a Welcome message"));
            proof {
                assert(r.detail().subrange(0, r.detail().len() as int) =~= r.detail());
                reveal_strlit("MLS error: ");
                lemma_other_kind(r, "MLS error: "@);
            }
            return Err(r);
        },
    };
    let config = group_join_config();
    let staged = match stage_welcome(&provider, &config, welcome) {
        Ok(s) => s,
        Err(e) => {
            return Err(mls_error("staged welcome: ", e));
        },
    };
    let group = match welcome_into_group(staged, &provider) {
        Ok(g) => g,
        Err(e) => {
            return Err(mls_error("welcome into_group: ", e));
        },
    };
    let group_id = group_id_bytes(&group_id_of(&group));
    let epoch = group_epoch(&group);
    let group_state = save_group(&group, &provider, &signer, &credential)?;
    Ok(ProcessWelcomeResult { group_state, group_id, epoch })
}

} // verus!
