//! The calls into openmls, its rust-crypto provider and basic credentials, serde_json on
//! their types, and base64, each behind a small function whose contract is taken on
//! trust. Errors of the outside crates come back as their display text.

use vstd::prelude::*;

use base64::prelude::BASE64_STANDARD;
use base64::Engine;
use openmls::prelude::{
    BasicCredential, CredentialWithKey, GroupId, KeyPackage, KeyPackageIn, LeafNodeIndex, MlsGroup,
    MlsGroupCreateConfig, MlsGroupJoinConfig, MlsMessageBodyIn, MlsMessageIn, MlsMessageOut,
    ProcessedMessage, ProcessedMessageContent, ProtocolMessage, ProtocolVersion, QueuedProposal,
    StagedCommit, StagedWelcome, Welcome,
};
use openmls_basic_credential::SignatureKeyPair;
use openmls_rust_crypto::OpenMlsRustCrypto;
use openmls_traits::types::Ciphersuite;
use openmls_traits::OpenMlsProvider;
use tls_codec::{Deserialize as TlsDeserializeTrait, Serialize as TlsSerializeTrait};

verus! {

#[verifier::external_type_specification]
#[verifier::external_body]
pub struct ExCiphersuite(Ciphersuite);

#[verifier::external_type_specification]
#[verifier::external_body]
pub struct ExOpenMlsRustCrypto(OpenMlsRustCrypto);

#[verifier::external_type_specification]
#[verifier::external_body]
pub struct ExSignatureKeyPair(SignatureKeyPair);

#[verifier::external_type_specification]
#[verifier::external_body]
pub struct ExCredentialWithKey(CredentialWithKey);

#[verifier::external_type_specification]
#[verifier::external_body]
pub struct ExKeyPackage(KeyPackage);

#[verifier::external_type_specification]
#[verifier::external_body]
pub struct ExKeyPackageIn(KeyPackageIn);

#[verifier::external_type_specification]
#[verifier::external_body]
pub struct ExGroupId(GroupId);

#[verifier::external_type_specification]
#[verifier::external_body]
pub struct ExMlsGroup(MlsGroup);

#[verifier::external_type_specification]
#[verifier::external_body]
pub struct ExMlsGroupJoinConfig(MlsGroupJoinConfig);

#[verifier::external_type_specification]
#[verifier::external_body]
pub struct ExMlsMessageOut(MlsMessageOut);

#[verifier::external_type_specification]
#[verifier::external_body]
pub struct ExMlsMessageIn(MlsMessageIn);

#[verifier::external_type_specification]
#[verifier::external_body]
pub struct ExProtocolMessage(ProtocolMessage);

#[verifier::external_type_specification]
#[verifier::external_body]
pub struct ExProcessedMessage(ProcessedMessage);

#[verifier::external_type_specification]
#[verifier::external_body]
pub struct ExStagedCommit(StagedCommit);

#[verifier::external_type_specification]
#[verifier::external_body]
pub struct ExQueuedProposal(QueuedProposal);

#[verifier::external_type_specification]
#[verifier::external_body]
pub struct ExWelcome(Welcome);

#[verifier::external_type_specification]
#[verifier::external_body]
pub struct ExStagedWelcome(StagedWelcome);

/// What a processed group message turned out to be.
pub enum GroupMessageContent {
    /// Application data, decrypted.
    Application(Vec<u8>),
    /// A proposal from a member.
    Proposal(QueuedProposal),
    /// A join proposal from outside the group.
    ExternalJoinProposal(QueuedProposal),
    /// A commit, staged for merging.
    Commit(StagedCommit),
}

/// The ciphersuite numbers whose HPKE the `OpenMlsRustCrypto` provider implements
/// (`supported_ciphersuites`: 1, 2 and 3). `derive_hpke_keypair` returns an error for
/// the other suites it cannot serve, but for the X-Wing suite (0x4D) its `kem_mode` stops
/// at `unimplemented!` before any `Result`; key packages and groups are only built for
/// the supported suites.
pub open spec fn provider_suite(code: u16) -> bool {
    1 <= code <= 3
}

/// The ciphersuite numbers that openmls knows.
pub open spec fn known_ciphersuite(code: u16) -> bool {
    1 <= code <= 7 || code == 0x4D
}

/// `Ciphersuite::try_from(u16)`: the suite with that registry number; openmls knows
/// numbers 1 to 7 and 0x4D and refuses the others.
#[verifier::external_body]
pub(crate) fn ciphersuite_from_code(code: u16) -> (r: Option<Ciphersuite>)
    ensures
        r is Some <==> known_ciphersuite(code),
{
    Ciphersuite::try_from(code).ok()
}

/// The base64 text (standard alphabet, with padding) of `data`.
pub uninterp spec fn base64_text(data: Seq<u8>) -> Seq<u8>;

/// The bytes that a base64 text (standard alphabet, with padding) stands for, where it
/// is valid.
pub uninterp spec fn base64_value(text: Seq<u8>) -> Option<Seq<u8>>;

/// A symbol of the standard base64 alphabet, or the padding `=`.
pub open spec fn base64_symbol(b: u8) -> bool {
    (65 <= b <= 90) || (97 <= b <= 122) || (48 <= b <= 57) || b == 43 || b == 47 || b == 61
}

/// `BASE64_STANDARD.encode`: the text is made of the alphabet's symbols and decodes back
/// to `data`.
#[verifier::external_body]
pub(crate) fn base64_encode(data: &[u8]) -> (r: Vec<u8>)
    ensures
        r@ == base64_text(data@),
        forall|i: int| 0 <= i < r@.len() ==> base64_symbol(#[trigger] r@[i]),
        base64_value(r@) == Some(data@),
{
    BASE64_STANDARD.encode(data).into_bytes()
}

/// `BASE64_STANDARD.decode`: the bytes that `text` stands for, or an error where it is
/// not valid base64.
#[verifier::external_body]
pub(crate) fn base64_decode(text: &[u8]) -> (r: Result<Vec<u8>, String>)
    ensures
        match base64_value(text@) {
            Some(v) => r matches Ok(d) && d@ == v,
            None => r is Err,
        },
{
    BASE64_STANDARD.decode(text).map_err(|e| e.to_string())
}

/// `OpenMlsRustCrypto::default()`: a provider with an empty key store.
#[verifier::external_body]
pub(crate) fn new_provider() -> (r: OpenMlsRustCrypto) {
    OpenMlsRustCrypto::default()
}

/// The entries of the provider's in-memory key store (`MemoryStorage::values`), key and
/// value, in the map's iteration order; no key comes twice. The read lock is poisoned
/// only by a panic while it was held.
#[verifier::external_body]
pub(crate) fn storage_entries(provider: &OpenMlsRustCrypto) -> (r: Vec<(Vec<u8>, Vec<u8>)>)
    ensures
        forall|i: int, j: int| 0 <= i < j < r@.len() ==> #[trigger] r@[i].0@ != #[trigger] r@[j].0@,
{
    let values = provider.storage().values.read().expect("storage lock poisoned");
    values.iter().map(|(k, v)| (k.clone(), v.clone())).collect()
}

/// Insert an entry into the provider's in-memory key store (`MemoryStorage::values`).
#[verifier::external_body]
pub(crate) fn storage_insert(provider: &OpenMlsRustCrypto, key: Vec<u8>, value: Vec<u8>) {
    let mut values = provider.storage().values.write().expect("storage lock poisoned");
    values.insert(key, value);
}

/// `SignatureKeyPair::new` for the suite's signature scheme: a fresh random key pair.
#[verifier::external_body]
pub(crate) fn new_signer(suite: Ciphersuite) -> (r: Result<SignatureKeyPair, String>) {
    SignatureKeyPair::new(suite.signature_algorithm()).map_err(|e| e.to_string())
}

/// `SignatureKeyPair::store`: write the key pair into the provider's key store.
#[verifier::external_body]
pub(crate) fn store_signer(signer: &SignatureKeyPair, provider: &OpenMlsRustCrypto) -> (r: Result<(), String>) {
    signer.store(provider.storage()).map_err(|e| e.to_string())
}

/// A basic credential for `identity` (`BasicCredential::new`), paired with the signer's
/// public key (`SignatureKeyPair::to_public_vec`).
#[verifier::external_body]
pub(crate) fn credential_with_key(identity: &[u8], signer: &SignatureKeyPair) -> (r: CredentialWithKey) {
    CredentialWithKey {
        credential: BasicCredential::new(identity.to_vec()).into(),
        signature_key: signer.to_public_vec().into(),
    }
}

/// `CredentialWithKey::clone`.
#[verifier::external_body]
pub(crate) fn copy_credential(credential: &CredentialWithKey) -> (r: CredentialWithKey) {
    credential.clone()
}

/// `KeyPackage::builder().build` for the suite with registry number `suite_code`: a key
/// package whose private material goes into the provider's key store. Only suites the
/// provider implements are admitted.
#[verifier::external_body]
pub(crate) fn build_key_package(
    suite_code: u16,
    provider: &OpenMlsRustCrypto,
    signer: &SignatureKeyPair,
    credential: CredentialWithKey,
) -> (r: Result<KeyPackage, String>)
    requires
        provider_suite(suite_code),
{
    let suite = Ciphersuite::try_from(suite_code).map_err(|e| e.to_string())?;
    KeyPackage::builder()
        .build(suite, provider, signer, credential)
        .map(|bundle| bundle.key_package().clone())
        .map_err(|e| e.to_string())
}

/// `KeyPackage::tls_serialize_detached`.
#[verifier::external_body]
pub(crate) fn key_package_tls(key_package: &KeyPackage) -> (r: Result<Vec<u8>, String>) {
    key_package.tls_serialize_detached().map_err(|e| e.to_string())
}

/// `serde_json::to_vec` of a signature key pair. It cannot fail: the type's `Serialize`
/// is derived over byte vectors and a unit-variant enum (no maps, no custom errors), and
/// the output is an in-memory vector.
#[verifier::external_body]
pub(crate) fn signer_json(signer: &SignatureKeyPair) -> (r: Result<Vec<u8>, String>)
    ensures
        r is Ok,
{
    serde_json::to_vec(signer).map_err(|e| e.to_string())
}

/// `serde_json::to_vec` of a credential with its key. It cannot fail: `Serialize` is
/// derived all the way down to byte vectors (`VLBytes`) and enums, with no maps and no
/// custom errors, and the output is an in-memory vector.
#[verifier::external_body]
pub(crate) fn credential_json(credential: &CredentialWithKey) -> (r: Result<Vec<u8>, String>)
    ensures
        r is Ok,
{
    serde_json::to_vec(credential).map_err(|e| e.to_string())
}

/// `serde_json::to_vec` of a group identifier. It cannot fail: `Serialize` is derived
/// over one `VLBytes` (a byte vector), and the output is an in-memory vector.
#[verifier::external_body]
pub(crate) fn group_id_json(group_id: &GroupId) -> (r: Result<Vec<u8>, String>)
    ensures
        r is Ok,
{
    serde_json::to_vec(group_id).map_err(|e| e.to_string())
}

/// `serde_json::from_slice` into a signature key pair.
#[verifier::external_body]
pub(crate) fn signer_from_json(bytes: &[u8]) -> (r: Result<SignatureKeyPair, String>) {
    serde_json::from_slice(bytes).map_err(|e| e.to_string())
}

/// `serde_json::from_slice` into a credential with its key.
#[verifier::external_body]
pub(crate) fn credential_from_json(bytes: &[u8]) -> (r: Result<CredentialWithKey, String>) {
    serde_json::from_slice(bytes).map_err(|e| e.to_string())
}

/// `serde_json::from_slice` into a group identifier.
#[verifier::external_body]
pub(crate) fn group_id_from_json(bytes: &[u8]) -> (r: Result<GroupId, String>) {
    serde_json::from_slice(bytes).map_err(|e| e.to_string())
}

/// `GroupId::as_slice`, copied.
#[verifier::external_body]
pub(crate) fn group_id_bytes(group_id: &GroupId) -> (r: Vec<u8>) {
    group_id.as_slice().to_vec()
}

/// `MlsGroup::load`: the group with that identifier from the key store, if it is
/// there.
#[verifier::external_body]
pub(crate) fn load_stored_group(provider: &OpenMlsRustCrypto, group_id: &GroupId) -> (r: Result<Option<MlsGroup>, String>) {
    MlsGroup::load(provider.storage(), group_id).map_err(|e| e.to_string())
}

/// `MlsGroupJoinConfig::builder()` with the ratchet-tree extension on.
#[verifier::external_body]
pub(crate) fn group_join_config() -> (r: MlsGroupJoinConfig) {
    MlsGroupJoinConfig::builder().use_ratchet_tree_extension(true).build()
}

/// `MlsGroup::new` with the configuration `MlsGroupCreateConfig::builder()` for the suite
/// with registry number `suite_code` and the ratchet-tree extension on: a group with the
/// creator as its only member, returned with its epoch (`MlsGroup::epoch`) and the bytes
/// of its identifier (`MlsGroup::group_id`). A new group's context starts at epoch 0
/// (`GroupContext::create_initial_group_context`) and its identifier is
/// `GroupId::random`, 16 random bytes. Only suites the provider implements are admitted.
#[verifier::external_body]
pub(crate) fn new_group(
    provider: &OpenMlsRustCrypto,
    signer: &SignatureKeyPair,
    suite_code: u16,
    credential: CredentialWithKey,
) -> (r: Result<(MlsGroup, u64, Vec<u8>), String>)
    requires
        provider_suite(suite_code),
    ensures
        r matches Ok((_, epoch, id)) ==> epoch == 0 && id@.len() == 16,
{
    let suite = Ciphersuite::try_from(suite_code).map_err(|e| e.to_string())?;
    let config = MlsGroupCreateConfig::builder().ciphersuite(suite).use_ratchet_tree_extension(true).build();
    let group = MlsGroup::new(provider, signer, &config, credential).map_err(|e| e.to_string())?;
    let epoch = group.epoch().as_u64();
    let id = group.group_id().as_slice().to_vec();
    Ok((group, epoch, id))
}

/// `MlsGroup::group_id`, copied.
#[verifier::external_body]
pub(crate) fn group_id_of(group: &MlsGroup) -> (r: GroupId) {
    group.group_id().clone()
}

/// `MlsGroup::epoch`, as a number.
#[verifier::external_body]
pub(crate) fn group_epoch(group: &MlsGroup) -> (r: u64) {
    group.epoch().as_u64()
}

/// `KeyPackageIn::tls_deserialize_exact`.
#[verifier::external_body]
pub(crate) fn key_package_from_tls(bytes: &[u8]) -> (r: Result<KeyPackageIn, String>) {
    KeyPackageIn::tls_deserialize_exact(bytes).map_err(|e| e.to_string())
}

/// `KeyPackageIn::validate` for MLS 1.0 with the provider's crypto.
#[verifier::external_body]
pub(crate) fn validate_key_package(key_package: KeyPackageIn, provider: &OpenMlsRustCrypto) -> (r: Result<KeyPackage, String>) {
    key_package.validate(provider.crypto(), ProtocolVersion::Mls10).map_err(|e| e.to_string())
}

/// `MlsGroup::add_members` with one key package: the commit and the welcome.
#[verifier::external_body]
pub(crate) fn add_member_commit(
    group: &mut MlsGroup,
    provider: &OpenMlsRustCrypto,
    signer: &SignatureKeyPair,
    key_package: KeyPackage,
) -> (r: Result<(MlsMessageOut, MlsMessageOut), String>) {
    group.add_members(provider, signer, &[key_package]).map(|(commit, welcome, _)| (commit, welcome)).map_err(
        |e| e.to_string(),
    )
}

/// `MlsGroup::merge_pending_commit`.
#[verifier::external_body]
pub(crate) fn merge_pending_commit(group: &mut MlsGroup, provider: &OpenMlsRustCrypto) -> (r: Result<(), String>) {
    group.merge_pending_commit(provider).map_err(|e| e.to_string())
}

/// `MlsGroup::remove_members` with one leaf index: the commit.
#[verifier::external_body]
pub(crate) fn remove_member_commit(
    group: &mut MlsGroup,
    provider: &OpenMlsRustCrypto,
    signer: &SignatureKeyPair,
    leaf_index: u32,
) -> (r: Result<MlsMessageOut, String>) {
    group.remove_members(provider, signer, &[LeafNodeIndex::new(leaf_index)]).map(|(commit, _, _)| commit).map_err(
        |e| e.to_string(),
    )
}

/// `MlsGroup::create_message`: an application message for the group.
#[verifier::external_body]
pub(crate) fn create_application_message(
    group: &mut MlsGroup,
    provider: &OpenMlsRustCrypto,
    signer: &SignatureKeyPair,
    plaintext: &[u8],
) -> (r: Result<MlsMessageOut, String>) {
    group.create_message(provider, signer, plaintext).map_err(|e| e.to_string())
}

/// `MlsMessageOut::tls_serialize_detached`. The encoding begins with the two-byte
/// protocol version and the two-byte wire format of the body (derived `TlsSerialize` of
/// `MlsMessageOut { version, body }`), so it is at least four bytes long.
#[verifier::external_body]
pub(crate) fn mls_message_tls(message: &MlsMessageOut) -> (r: Result<Vec<u8>, String>)
    ensures
        r matches Ok(b) ==> b@.len() >= 4,
{
    message.tls_serialize_detached().map_err(|e| e.to_string())
}

/// `MlsMessageIn::tls_deserialize_exact`.
#[verifier::external_body]
pub(crate) fn mls_message_from_tls(bytes: &[u8]) -> (r: Result<MlsMessageIn, String>) {
    MlsMessageIn::tls_deserialize_exact(bytes).map_err(|e| e.to_string())
}

/// `MlsMessageIn::try_into_protocol_message`.
#[verifier::external_body]
pub(crate) fn protocol_message_of(message: MlsMessageIn) -> (r: Result<ProtocolMessage, String>) {
    message.try_into_protocol_message().map_err(|e| e.to_string())
}

/// `MlsGroup::process_message`.
#[verifier::external_body]
pub(crate) fn process_protocol_message(
    group: &mut MlsGroup,
    provider: &OpenMlsRustCrypto,
    message: ProtocolMessage,
) -> (r: Result<ProcessedMessage, String>) {
    group.process_message(provider, message).map_err(|e| e.to_string())
}

/// `ProcessedMessage::into_content`, variant by variant, with the content's debug text.
#[verifier::external_body]
pub(crate) fn message_content(message: ProcessedMessage) -> (r: (GroupMessageContent, String)) {
    let content = message.into_content();
    let text = format!("{content:?}");
    let converted = match content {
        ProcessedMessageContent::ApplicationMessage(m) => GroupMessageContent::Application(m.into_bytes()),
        ProcessedMessageContent::ProposalMessage(p) => GroupMessageContent::Proposal(*p),
        ProcessedMessageContent::ExternalJoinProposalMessage(p) => GroupMessageContent::ExternalJoinProposal(*p),
        ProcessedMessageContent::StagedCommitMessage(c) => GroupMessageContent::Commit(*c),
    };
    (converted, text)
}

/// `MlsGroup::merge_staged_commit`.
#[verifier::external_body]
pub(crate) fn merge_staged_commit(group: &mut MlsGroup, provider: &OpenMlsRustCrypto, commit: StagedCommit) -> (r: Result<(), String>) {
    group.merge_staged_commit(provider, commit).map_err(|e| e.to_string())
}

/// `MlsGroup::store_pending_proposal` into the provider's key store.
#[verifier::external_body]
pub(crate) fn store_pending_proposal(group: &mut MlsGroup, provider: &OpenMlsRustCrypto, proposal: QueuedProposal) -> (r: Result<(), String>) {
    group.store_pending_proposal(provider.storage(), proposal).map_err(|e| e.to_string())
}

/// `MlsMessageIn::extract`: the welcome it carries, if it carries one.
#[verifier::external_body]
pub(crate) fn welcome_of(message: MlsMessageIn) -> (r: Option<Welcome>) {
    match message.extract() {
        MlsMessageBodyIn::Welcome(w) => Some(w),
        _ => None,
    }
}

/// `StagedWelcome::new_from_welcome`, with the ratchet tree taken from the welcome.
#[verifier::external_body]
pub(crate) fn stage_welcome(provider: &OpenMlsRustCrypto, config: &MlsGroupJoinConfig, welcome: Welcome) -> (r: Result<StagedWelcome, String>) {
    StagedWelcome::new_from_welcome(provider, config, welcome, None).map_err(|e| e.to_string())
}

/// `StagedWelcome::into_group`.
#[verifier::external_body]
pub(crate) fn welcome_into_group(staged: StagedWelcome, provider: &OpenMlsRustCrypto) -> (r: Result<MlsGroup, String>) {
    staged.into_group(provider).map_err(|e| e.to_string())
}

} // verus!
