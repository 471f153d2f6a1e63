//! A Double Ratchet session: root key, DH ratchet keypair, sending and receiving chains,
//! and stored keys of skipped messages for out-of-order delivery.

use vstd::prelude::*;

use crate::aead::{aes256gcm_open, aes256gcm_seal, opened, Encrypted, AEAD_MAX_INPUT, NONCE_LEN};
use crate::bytes::{array32_from_slice, bytes_equal, to_vec};
use crate::curve::{public_key_of, x25519_public_of, x25519_random_secret, x25519_shared, PublicKey};
use crate::error::{CryptoError, Result};
use crate::identity::SignedPreKey;
use crate::kdf::{message_key_of, next_chain_key};
use crate::ratchet::chain::ChainKey;
use crate::ratchet::dh_ratchet::{dh, dh_ratchet_step, ratchet_step};
use crate::ratchet::header::{header_json, HeaderFields, MessageHeader};
use crate::ratchet::skipped::SkippedKeys;

verus! {

/// The largest number of skipped message keys a session stores.
pub const MAX_SKIP: u32 = 100;

/// The values a session holds.
pub struct SessionState {
    pub root_key: Seq<u8>,
    pub dh_secret: Seq<u8>,
    pub dh_public: Seq<u8>,
    pub remote_dh_public: Option<Seq<u8>>,
    /// Chain key and index of the sending chain.
    pub sending_chain: Option<(Seq<u8>, u32)>,
    /// Chain key and index of the receiving chain.
    pub receiving_chain: Option<(Seq<u8>, u32)>,
    pub previous_sending_chain_length: u32,
    /// Message keys of skipped messages by (sender ratchet key, message number).
    pub skipped_keys: Map<(Seq<u8>, u32), Seq<u8>>,
}

/// How a decryption ends.
pub enum DecryptOutcome {
    Plaintext(Seq<u8>),
    /// A ratchet error: there is no receiving chain.
    NoReceivingChain,
    /// A ratchet error: more than `MAX_SKIP` skipped message keys would be stored.
    TooManySkipped,
    /// The ciphertext did not authenticate under the derived message key.
    AuthenticationFailure,
    /// The receiving chain's counter would pass `u32::MAX`.
    CounterExhausted,
}

/// What a skip through a chain leaves: the chain, the stored keys, and whether the store
/// stayed within its bound.
pub struct SkipResult {
    pub chain: (Seq<u8>, u32),
    pub skipped: Map<(Seq<u8>, u32), Seq<u8>>,
    pub ok: bool,
}

/// Advance `chain` until its index reaches `until`, storing each message key passed under
/// (`dh`, its index); stop with failure as soon as more than `MAX_SKIP` keys are stored.
pub open spec fn skip_chain(
    chain: (Seq<u8>, u32),
    dh: Seq<u8>,
    until: u32,
    skipped: Map<(Seq<u8>, u32), Seq<u8>>,
) -> SkipResult
    decreases until - chain.1,
{
    if chain.1 >= until {
        SkipResult { chain, skipped, ok: true }
    } else {
        let stored = skipped.insert((dh, chain.1), message_key_of(chain.0));
        let next = (next_chain_key(chain.0), (chain.1 + 1) as u32);
        if stored.len() > MAX_SKIP {
            SkipResult { chain: next, skipped: stored, ok: false }
        } else {
            skip_chain(next, dh, until, stored)
        }
    }
}

/// The header of the next message the session sends.
pub open spec fn next_header(s: SessionState) -> HeaderFields {
    HeaderFields {
        dh_public_key: s.dh_public,
        message_number: s.sending_chain.unwrap().1,
        previous_chain_length: s.previous_sending_chain_length,
    }
}

/// The message key of the next message the session sends.
pub open spec fn next_sending_key(s: SessionState) -> Seq<u8> {
    message_key_of(s.sending_chain.unwrap().0)
}

/// The session after its sending chain advances by one message.
pub open spec fn advance_sending(s: SessionState) -> SessionState {
    let c = s.sending_chain.unwrap();
    SessionState { sending_chain: Some((next_chain_key(c.0), (c.1 + 1) as u32)), ..s }
}

/// The outcome of opening `encrypted` with message key `key` for header `h`.
pub open spec fn open_with(key: Seq<u8>, h: HeaderFields, encrypted: Encrypted) -> DecryptOutcome {
    match opened(key, encrypted, header_json(h)) {
        Some(p) => DecryptOutcome::Plaintext(p),
        None => DecryptOutcome::AuthenticationFailure,
    }
}

/// Whether a message with header `h` starts a new DH ratchet step.
pub open spec fn needs_ratchet(s: SessionState, h: HeaderFields) -> bool {
    match s.remote_dh_public {
        None => true,
        Some(r) => r != h.dh_public_key,
    }
}

/// Skip the rest of the current receiving chain up to `until`, when the session has a
/// receiving chain and a remote key.
pub open spec fn skip_current_receiving(s: SessionState, until: u32) -> (SessionState, bool) {
    match (s.receiving_chain, s.remote_dh_public) {
        (Some(c), Some(r)) => {
            let k = skip_chain(c, r, until, s.skipped_keys);
            (SessionState { receiving_chain: Some(k.chain), skipped_keys: k.skipped, ..s }, k.ok)
        },
        _ => (s, true),
    }
}

/// The receiving half of a DH ratchet step on the remote key `remote`: a new root key and
/// receiving chain from DH(our secret, remote); the sending chain length is recorded.
pub open spec fn ratchet_receive(s: SessionState, remote: Seq<u8>) -> SessionState {
    let step = ratchet_step(s.root_key, x25519_shared(s.dh_secret, remote));
    SessionState {
        root_key: step.0,
        receiving_chain: Some((step.1, 0u32)),
        remote_dh_public: Some(remote),
        previous_sending_chain_length: match s.sending_chain {
            Some(c) => c.1,
            None => 0u32,
        },
        ..s
    }
}

/// The sending half of a DH ratchet step with the new secret `fresh`: a new root key and
/// sending chain from DH(fresh, remote), and `fresh` becomes our ratchet secret.
pub open spec fn ratchet_send(s: SessionState, fresh: Seq<u8>) -> SessionState {
    let step = ratchet_step(s.root_key, x25519_shared(fresh, s.remote_dh_public.unwrap()));
    SessionState {
        root_key: step.0,
        dh_secret: fresh,
        dh_public: x25519_public_of(fresh),
        sending_chain: Some((step.1, 0u32)),
        ..s
    }
}

/// Whether decrypting a message with header `h` performs a DH ratchet step.
pub open spec fn ratchets(s: SessionState, h: HeaderFields) -> bool {
    &&& !s.skipped_keys.contains_key((h.dh_public_key, h.message_number))
    &&& needs_ratchet(s, h)
    &&& skip_current_receiving(s, h.previous_chain_length).1
}

/// The root key after the receiving half of the ratchet step a message with header `h`
/// triggers.
pub open spec fn received_root(s: SessionState, h: HeaderFields) -> Seq<u8> {
    ratchet_receive(skip_current_receiving(s, h.previous_chain_length).0, h.dh_public_key).root_key
}

/// Decrypting `encrypted` with header `h`, where `fresh` is the secret a DH ratchet step
/// would adopt: the session afterwards and the outcome.
pub open spec fn decrypt_spec(s: SessionState, h: HeaderFields, encrypted: Encrypted, fresh: Seq<u8>) -> (SessionState, DecryptOutcome) {
    let id = (h.dh_public_key, h.message_number);
    if s.skipped_keys.contains_key(id) {
        (SessionState { skipped_keys: s.skipped_keys.remove(id), ..s }, open_with(s.skipped_keys[id], h, encrypted))
    } else {
        let skipped_current = if needs_ratchet(s, h) {
            skip_current_receiving(s, h.previous_chain_length)
        } else {
            (s, true)
        };
        let s1 = skipped_current.0;
        if !skipped_current.1 {
            (s1, DecryptOutcome::TooManySkipped)
        } else {
            let s2 = if needs_ratchet(s, h) {
                ratchet_send(ratchet_receive(s1, h.dh_public_key), fresh)
            } else {
                s1
            };
            match s2.receiving_chain {
                None => (s2, DecryptOutcome::NoReceivingChain),
                Some(c) => {
                    let k = skip_chain(c, h.dh_public_key, h.message_number, s2.skipped_keys);
                    let s3 = SessionState { receiving_chain: Some(k.chain), skipped_keys: k.skipped, ..s2 };
                    if !k.ok {
                        (s3, DecryptOutcome::TooManySkipped)
                    } else if k.chain.1 == u32::MAX {
                        (s3, DecryptOutcome::CounterExhausted)
                    } else {
                        (
                            SessionState {
                                receiving_chain: Some((next_chain_key(k.chain.0), (k.chain.1 + 1) as u32)),
                                ..s3
                            },
                            open_with(message_key_of(k.chain.0), h, encrypted),
                        )
                    }
                },
            }
        }
    }
}

/// How far decrypting a message gets before its ciphertext is read.
#[derive(Clone, Copy, Debug, PartialEq, Eq, Structural)]
pub enum DecryptStage {
    /// A message key is found and the ciphertext is opened with it.
    Opens,
    /// A ratchet error: there is no receiving chain.
    NoReceivingChain,
    /// A ratchet error: more than `MAX_SKIP` skipped message keys would be stored.
    TooManySkipped,
    /// The receiving chain's counter would pass `u32::MAX`.
    CounterExhausted,
}

/// How far decrypting a message with header `h` gets before the ciphertext is read.
pub open spec fn decrypt_stage_spec(s: SessionState, h: HeaderFields) -> DecryptStage {
    if s.skipped_keys.contains_key((h.dh_public_key, h.message_number)) {
        DecryptStage::Opens
    } else {
        let skipped_current = if needs_ratchet(s, h) {
            skip_current_receiving(s, h.previous_chain_length)
        } else {
            (s, true)
        };
        if !skipped_current.1 {
            DecryptStage::TooManySkipped
        } else {
            let s2 = if needs_ratchet(s, h) {
                ratchet_receive(skipped_current.0, h.dh_public_key)
            } else {
                skipped_current.0
            };
            match s2.receiving_chain {
                None => DecryptStage::NoReceivingChain,
                Some(c) => {
                    let k = skip_chain(c, h.dh_public_key, h.message_number, s2.skipped_keys);
                    if !k.ok {
                        DecryptStage::TooManySkipped
                    } else if k.chain.1 == u32::MAX {
                        DecryptStage::CounterExhausted
                    } else {
                        DecryptStage::Opens
                    }
                },
            }
        }
    }
}

/// The stage at which a decryption outcome arises.
pub open spec fn stage_of(outcome: DecryptOutcome) -> DecryptStage {
    match outcome {
        DecryptOutcome::Plaintext(_) => DecryptStage::Opens,
        DecryptOutcome::AuthenticationFailure => DecryptStage::Opens,
        DecryptOutcome::NoReceivingChain => DecryptStage::NoReceivingChain,
        DecryptOutcome::TooManySkipped => DecryptStage::TooManySkipped,
        DecryptOutcome::CounterExhausted => DecryptStage::CounterExhausted,
    }
}

/// How far a decryption gets depends on the session and the header alone: neither the
/// ciphertext nor the ratchet secret a DH ratchet step adopts changes it.
pub proof fn lemma_stage_of_decrypt(s: SessionState, h: HeaderFields, encrypted: Encrypted, fresh: Seq<u8>)
    ensures
        stage_of(decrypt_spec(s, h, encrypted, fresh).1) == decrypt_stage_spec(s, h),
{
}

/// When skipping succeeds, the chain ends at `until`, or where it was if that is further.
proof fn lemma_skip_chain_index(
    chain: (Seq<u8>, u32),
    dh: Seq<u8>,
    until: u32,
    skipped: Map<(Seq<u8>, u32), Seq<u8>>,
)
    ensures
        skip_chain(chain, dh, until, skipped).ok ==> skip_chain(chain, dh, until, skipped).chain.1 == if chain.1
            >= until {
            chain.1
        } else {
            until
        },
    decreases until - chain.1,
{
    if chain.1 < until {
        let stored = skipped.insert((dh, chain.1), message_key_of(chain.0));
        let next = (next_chain_key(chain.0), (chain.1 + 1) as u32);
        lemma_skip_chain_index(next, dh, until, stored);
    }
}

/// The receiving counter can only run out when the message number, or the index of the
/// current receiving chain, is `u32::MAX`.
pub proof fn lemma_counter_exhaustion_needs_limit(s: SessionState, h: HeaderFields)
    requires
        h.message_number < u32::MAX,
        s.receiving_chain matches Some(c) ==> c.1 < u32::MAX,
    ensures
        decrypt_stage_spec(s, h) != DecryptStage::CounterExhausted,
{
    if !s.skipped_keys.contains_key((h.dh_public_key, h.message_number)) {
        let skipped_current = if needs_ratchet(s, h) {
            skip_current_receiving(s, h.previous_chain_length)
        } else {
            (s, true)
        };
        if skipped_current.1 {
            let s2 = if needs_ratchet(s, h) {
                ratchet_receive(skipped_current.0, h.dh_public_key)
            } else {
                skipped_current.0
            };
            if let Some(c) = s2.receiving_chain {
                lemma_skip_chain_index(c, h.dh_public_key, h.message_number, s2.skipped_keys);
            }
        }
    }
}

/// Whether `r` reports `outcome`.
pub open spec fn reports(r: Result<Vec<u8>>, outcome: DecryptOutcome) -> bool {
    match outcome {
        DecryptOutcome::Plaintext(p) => (r matches Ok(v) && v@ == p),
        DecryptOutcome::NoReceivingChain => (r matches Err(CryptoError::Ratchet(m)) && m@
            == "No receiving chain established"@),
        DecryptOutcome::TooManySkipped => (r matches Err(CryptoError::Ratchet(m)) && m@
            == "Too many skipped messages"@),
        DecryptOutcome::AuthenticationFailure => (r matches Err(CryptoError::Decryption(m)) && m@
            == "Decryption failed: aead::Error"@),
        DecryptOutcome::CounterExhausted => false,
    }
}

/// The state of a session an initiator starts with `shared_secret`, the responder's
/// signed pre-key `spk_public`, and its first ratchet secret `dh_secret`.
pub open spec fn initiator_state(shared_secret: Seq<u8>, spk_public: Seq<u8>, dh_secret: Seq<u8>) -> SessionState {
    let step = ratchet_step(shared_secret, x25519_shared(dh_secret, spk_public));
    SessionState {
        root_key: step.0,
        dh_secret,
        dh_public: x25519_public_of(dh_secret),
        remote_dh_public: Some(spk_public),
        sending_chain: Some((step.1, 0u32)),
        receiving_chain: None,
        previous_sending_chain_length: 0,
        skipped_keys: Map::empty(),
    }
}

/// The state of a session a responder starts with `shared_secret` and its signed pre-key.
pub open spec fn responder_state(shared_secret: Seq<u8>, spk_secret: Seq<u8>, spk_public: Seq<u8>) -> SessionState {
    SessionState {
        root_key: shared_secret,
        dh_secret: spk_secret,
        dh_public: spk_public,
        remote_dh_public: None,
        sending_chain: None,
        receiving_chain: None,
        previous_sending_chain_length: 0,
        skipped_keys: Map::empty(),
    }
}

/// Whether `sender`'s sending chain (and root key) is what `receiver` derives when it
/// performs the receiving half of a ratchet step on `sender`'s public key.
pub open spec fn ratchet_keys_match(sender: SessionState, receiver: SessionState) -> bool {
    sender.sending_chain matches Some(c) && ratchet_step(
        receiver.root_key,
        x25519_shared(receiver.dh_secret, sender.dh_public),
    ) == (sender.root_key, c.0)
}

spec fn chain_view(c: Option<ChainKey>) -> Option<(Seq<u8>, u32)> {
    match c {
        Some(k) => Some(k@),
        None => None,
    }
}

spec fn key_view(k: Option<PublicKey>) -> Option<Seq<u8>> {
    match k {
        Some(p) => Some(p@),
        None => None,
    }
}

/// A Double Ratchet session between two parties.
pub struct Session {
    root_key: Vec<u8>,
    dh_secret: [u8; 32],
    dh_public: PublicKey,
    remote_dh_public: Option<PublicKey>,
    sending_chain: Option<ChainKey>,
    receiving_chain: Option<ChainKey>,
    previous_sending_chain_length: u32,
    skipped_keys: SkippedKeys,
}

impl View for Session {
    type V = SessionState;

    closed spec fn view(&self) -> SessionState {
        SessionState {
            root_key: self.root_key@,
            dh_secret: self.dh_secret@,
            dh_public: self.dh_public@,
            remote_dh_public: key_view(self.remote_dh_public),
            sending_chain: chain_view(self.sending_chain),
            receiving_chain: chain_view(self.receiving_chain),
            previous_sending_chain_length: self.previous_sending_chain_length,
            skipped_keys: self.skipped_keys@,
        }
    }
}

/// Law (delivery on a new ratchet chain): when the receiver's root key and ratchet secret
/// yield the sender's sending chain, and the sender has not yet sent in that chain, the
/// receiver decrypts the sender's next message to its plaintext. Afterwards the receiver's
/// receiving chain is the sender's advanced sending chain, the receiver knows the sender's
/// ratchet key, and the receiver's new root key and sending chain come from the sender's
/// root key and DH(fresh, sender's ratchet key). The receiver must not already be on this
/// ratchet key, hold no stored key for the message, and have received the sender's whole
/// previous chain.
pub proof fn lemma_new_chain_message_delivered(
    sender: SessionState,
    receiver: SessionState,
    plaintext: Seq<u8>,
    encrypted: Encrypted,
    fresh: Seq<u8>,
)
    requires
        ratchet_keys_match(sender, receiver),
        sender.sending_chain.unwrap().1 == 0,
        receiver.remote_dh_public != Some(sender.dh_public),
        !receiver.skipped_keys.contains_key((sender.dh_public, 0u32)),
        receiver.receiving_chain is None || receiver.remote_dh_public is None
            || receiver.receiving_chain.unwrap().1 >= sender.previous_sending_chain_length,
        opened(next_sending_key(sender), encrypted, header_json(next_header(sender))) == Some(plaintext),
    ensures
        ({
            let (after, outcome) = decrypt_spec(receiver, next_header(sender), encrypted, fresh);
            &&& outcome == DecryptOutcome::Plaintext(plaintext)
            &&& after.receiving_chain == advance_sending(sender).sending_chain
            &&& after.remote_dh_public == Some(sender.dh_public)
            &&& after.dh_secret == fresh
            &&& after.dh_public == x25519_public_of(fresh)
            &&& ratchet_step(sender.root_key, x25519_shared(fresh, sender.dh_public)) == (
                after.root_key,
                after.sending_chain.unwrap().0,
            )
        }),
{
    let h = next_header(sender);
    let c = sender.sending_chain.unwrap();
    let s1 = skip_current_receiving(receiver, h.previous_chain_length).0;
    assert(s1 == receiver);
    let s2 = ratchet_send(ratchet_receive(s1, h.dh_public_key), fresh);
    assert(s2.receiving_chain == Some((c.0, 0u32)));
    assert(skip_chain((c.0, 0u32), h.dh_public_key, 0u32, s2.skipped_keys).chain == (c.0, 0u32));
}

/// Law (in-order delivery within a chain): when the receiver's receiving chain is the
/// sender's sending chain and the receiver knows the sender's ratchet key, the receiver
/// decrypts the sender's next message to its plaintext, and afterwards only its receiving
/// chain has changed: it is the sender's advanced sending chain. The receiver must hold no
/// stored key for the message, and the chain counter must not be exhausted.
pub proof fn lemma_same_chain_message_delivered(
    sender: SessionState,
    receiver: SessionState,
    plaintext: Seq<u8>,
    encrypted: Encrypted,
    fresh: Seq<u8>,
)
    requires
        sender.sending_chain matches Some(c) && c.1 < u32::MAX,
        receiver.remote_dh_public == Some(sender.dh_public),
        receiver.receiving_chain == sender.sending_chain,
        !receiver.skipped_keys.contains_key((sender.dh_public, sender.sending_chain.unwrap().1)),
        opened(next_sending_key(sender), encrypted, header_json(next_header(sender))) == Some(plaintext),
    ensures
        decrypt_spec(receiver, next_header(sender), encrypted, fresh) == (
            SessionState { receiving_chain: advance_sending(sender).sending_chain, ..receiver },
            DecryptOutcome::Plaintext(plaintext),
        ),
{
    let h = next_header(sender);
    let c = sender.sending_chain.unwrap();
    assert(skip_chain(c, h.dh_public_key, c.1, receiver.skipped_keys).chain == c);
    assert(SessionState { receiving_chain: Some(c), skipped_keys: receiver.skipped_keys, ..receiver } == receiver);
}

/// The chain key `steps` symmetric-ratchet steps after `key`.
pub open spec fn chain_key_after(key: Seq<u8>, steps: nat) -> Seq<u8>
    decreases steps,
{
    if steps == 0 {
        key
    } else {
        next_chain_key(chain_key_after(key, (steps - 1) as nat))
    }
}

/// The session after sending `count` more messages in its current sending chain.
pub open spec fn after_sending(s: SessionState, count: nat) -> SessionState
    decreases count,
{
    if count == 0 {
        s
    } else {
        advance_sending(after_sending(s, (count - 1) as nat))
    }
}

proof fn lemma_chain_key_after_next(key: Seq<u8>, steps: nat)
    ensures
        chain_key_after(next_chain_key(key), steps) == chain_key_after(key, steps + 1),
    decreases steps,
{
    if steps > 0 {
        lemma_chain_key_after_next(key, (steps - 1) as nat);
    } else {
        assert(chain_key_after(key, 0) == key);
    }
}

/// Law (chain index): sending `count` messages moves the sending chain `count` steps,
/// from index `i` to index `i + count`, and changes nothing else.
pub proof fn lemma_after_sending(s: SessionState, count: nat)
    requires
        s.sending_chain is Some,
        s.sending_chain.unwrap().1 + count <= u32::MAX,
    ensures
        after_sending(s, count) == (SessionState {
            sending_chain: Some(
                (
                    chain_key_after(s.sending_chain.unwrap().0, count),
                    (s.sending_chain.unwrap().1 + count) as u32,
                ),
            ),
            ..s
        }),
    decreases count,
{
    if count > 0 {
        lemma_after_sending(s, (count - 1) as nat);
    } else {
        assert(s == SessionState { sending_chain: Some((s.sending_chain.unwrap().0, s.sending_chain.unwrap().1)), ..s });
    }
}

/// Skipping through a chain leaves every key stored before in place, except the ones it
/// stores itself.
proof fn lemma_skip_chain_keeps(
    chain: (Seq<u8>, u32),
    dh: Seq<u8>,
    until: u32,
    skipped: Map<(Seq<u8>, u32), Seq<u8>>,
    x: (Seq<u8>, u32),
)
    requires
        skipped.contains_key(x),
        !(x.0 == dh && chain.1 <= x.1 < until),
    ensures
        skip_chain(chain, dh, until, skipped).skipped.contains_key(x),
        skip_chain(chain, dh, until, skipped).skipped[x] == skipped[x],
    decreases until - chain.1,
{
    if chain.1 < until {
        let stored = skipped.insert((dh, chain.1), message_key_of(chain.0));
        let next = (next_chain_key(chain.0), (chain.1 + 1) as u32);
        if stored.len() <= MAX_SKIP {
            lemma_skip_chain_keeps(next, dh, until, stored, x);
        }
    }
}

/// A successful skip through a chain stores, for each message number passed, the message
/// key of the chain at that number.
proof fn lemma_skip_chain_stores(
    chain: (Seq<u8>, u32),
    dh: Seq<u8>,
    until: u32,
    skipped: Map<(Seq<u8>, u32), Seq<u8>>,
    i: u32,
)
    requires
        skip_chain(chain, dh, until, skipped).ok,
        chain.1 <= i < until,
    ensures
        skip_chain(chain, dh, until, skipped).skipped.contains_key((dh, i)),
        skip_chain(chain, dh, until, skipped).skipped[(dh, i)] == message_key_of(
            chain_key_after(chain.0, (i - chain.1) as nat),
        ),
    decreases until - chain.1,
{
    let stored = skipped.insert((dh, chain.1), message_key_of(chain.0));
    let next = (next_chain_key(chain.0), (chain.1 + 1) as u32);
    if i == chain.1 {
        lemma_skip_chain_keeps(next, dh, until, stored, (dh, i));
        assert(chain_key_after(chain.0, 0) == chain.0);
    } else {
        lemma_skip_chain_stores(next, dh, until, stored, i);
        lemma_chain_key_after_next(chain.0, (i - chain.1 - 1) as nat);
    }
}

/// Law (out-of-order delivery within a chain): a receiver in step with the sender's
/// sending chain first gets the sender's message `later` (counted from the chain's
/// current index) and stores the keys of the messages it skips; the sender's earlier
/// message `earlier` then still decrypts to its plaintext. The first message must not
/// have come with too many skipped messages, and the receiver must hold no stored key
/// for it.
pub proof fn lemma_skipped_message_delivered(
    sender: SessionState,
    receiver: SessionState,
    later: nat,
    earlier: nat,
    late_encrypted: Encrypted,
    early_encrypted: Encrypted,
    plaintext: Seq<u8>,
    fresh: Seq<u8>,
    fresh_again: Seq<u8>,
)
    requires
        sender.sending_chain is Some,
        sender.sending_chain.unwrap().1 + later < u32::MAX,
        earlier < later,
        receiver.remote_dh_public == Some(sender.dh_public),
        receiver.receiving_chain == sender.sending_chain,
        !receiver.skipped_keys.contains_key((sender.dh_public, (sender.sending_chain.unwrap().1 + later) as u32)),
        !(decrypt_spec(receiver, next_header(after_sending(sender, later)), late_encrypted, fresh).1 is TooManySkipped),
        opened(
            next_sending_key(after_sending(sender, earlier)),
            early_encrypted,
            header_json(next_header(after_sending(sender, earlier))),
        ) == Some(plaintext),
    ensures
        decrypt_spec(
            decrypt_spec(receiver, next_header(after_sending(sender, later)), late_encrypted, fresh).0,
            next_header(after_sending(sender, earlier)),
            early_encrypted,
            fresh_again,
        ).1 == DecryptOutcome::Plaintext(plaintext),
{
    let c = sender.sending_chain.unwrap();
    lemma_after_sending(sender, later);
    lemma_after_sending(sender, earlier);
    let h_late = next_header(after_sending(sender, later));
    let h_early = next_header(after_sending(sender, earlier));
    assert(h_late.message_number == c.1 + later);
    assert(h_early.message_number == c.1 + earlier);
    assert(!needs_ratchet(receiver, h_late));
    let k = skip_chain(c, h_late.dh_public_key, h_late.message_number, receiver.skipped_keys);
    assert(k.ok);
    let after = decrypt_spec(receiver, h_late, late_encrypted, fresh).0;
    assert(after.skipped_keys == k.skipped);
    lemma_skip_chain_stores(c, h_late.dh_public_key, h_late.message_number, receiver.skipped_keys, h_early.message_number);
}

/// Law (out-of-order delivery across a DH ratchet step): a receiver in step with the
/// sender's old sending chain gets, before the sender's old message `earlier`, a message
/// of a new chain (another ratchet key) whose header says the old chain ran past
/// `earlier`. Taking that step stores the keys of the old chain's missing messages, so
/// the old message still decrypts to its plaintext afterwards, whatever else the new
/// message turned out to be. The new message must not have come with too many skipped
/// messages, and the receiver must hold no stored key for it.
pub proof fn lemma_previous_chain_message_delivered(
    old_sender: SessionState,
    receiver: SessionState,
    header: HeaderFields,
    earlier: nat,
    new_encrypted: Encrypted,
    early_encrypted: Encrypted,
    plaintext: Seq<u8>,
    fresh: Seq<u8>,
    fresh_again: Seq<u8>,
)
    requires
        old_sender.sending_chain is Some,
        receiver.remote_dh_public == Some(old_sender.dh_public),
        receiver.receiving_chain == old_sender.sending_chain,
        header.dh_public_key != old_sender.dh_public,
        old_sender.sending_chain.unwrap().1 + earlier < header.previous_chain_length,
        !receiver.skipped_keys.contains_key((header.dh_public_key, header.message_number)),
        !(decrypt_spec(receiver, header, new_encrypted, fresh).1 is TooManySkipped),
        opened(
            next_sending_key(after_sending(old_sender, earlier)),
            early_encrypted,
            header_json(next_header(after_sending(old_sender, earlier))),
        ) == Some(plaintext),
    ensures
        decrypt_spec(
            decrypt_spec(receiver, header, new_encrypted, fresh).0,
            next_header(after_sending(old_sender, earlier)),
            early_encrypted,
            fresh_again,
        ).1 == DecryptOutcome::Plaintext(plaintext),
{
    let c = old_sender.sending_chain.unwrap();
    let old_dh = old_sender.dh_public;
    let p = header.previous_chain_length;
    lemma_after_sending(old_sender, earlier);
    let h2 = next_header(after_sending(old_sender, earlier));
    let i = (c.1 + earlier) as u32;
    assert(h2.dh_public_key == old_dh && h2.message_number == i);
    assert(needs_ratchet(receiver, header));
    let k1 = skip_chain(c, old_dh, p, receiver.skipped_keys);
    assert(skip_current_receiving(receiver, p) == (
        SessionState { receiving_chain: Some(k1.chain), skipped_keys: k1.skipped, ..receiver },
        k1.ok,
    ));
    assert(k1.ok);
    lemma_skip_chain_stores(c, old_dh, p, receiver.skipped_keys, i);
    let s1 = skip_current_receiving(receiver, p).0;
    let s2 = ratchet_send(ratchet_receive(s1, header.dh_public_key), fresh);
    assert(s2.skipped_keys == k1.skipped);
    let c2 = s2.receiving_chain.unwrap();
    lemma_skip_chain_keeps(c2, header.dh_public_key, header.message_number, s2.skipped_keys, (old_dh, i));
    let after = decrypt_spec(receiver, header, new_encrypted, fresh).0;
    let k2 = skip_chain(c2, header.dh_public_key, header.message_number, s2.skipped_keys);
    assert(after.skipped_keys == k2.skipped);
    assert(after.skipped_keys.contains_key((old_dh, i)));
    assert(after.skipped_keys[(old_dh, i)] == message_key_of(chain_key_after(c.0, earlier)));
}

/// No message key is stored for any message of the ratchet key `dh`.
pub open spec fn none_stored_for(s: SessionState, dh: Seq<u8>) -> bool {
    forall|n: u32| !#[trigger] s.skipped_keys.contains_key((dh, n))
}

/// The receiver reads the sender's next message on the chain it already follows.
pub open spec fn reads_same_chain(sender: SessionState, receiver: SessionState) -> bool {
    &&& receiver.remote_dh_public == Some(sender.dh_public)
    &&& receiver.receiving_chain == sender.sending_chain
    &&& none_stored_for(receiver, sender.dh_public)
}

/// The receiver reads the first message of the sender's new chain: the DH ratchet step
/// it takes derives that chain, and nothing of its current chain is left to skip.
pub open spec fn reads_new_chain(sender: SessionState, receiver: SessionState) -> bool {
    &&& ratchet_keys_match(sender, receiver)
    &&& sender.sending_chain.unwrap().1 == 0
    &&& receiver.remote_dh_public != Some(sender.dh_public)
    &&& none_stored_for(receiver, sender.dh_public)
    &&& (receiver.remote_dh_public is Some ==> (receiver.receiving_chain matches Some(c) ==> c.1
        >= sender.previous_sending_chain_length))
}

/// The receiver is in step with the sender's sending chain.
pub open spec fn in_step(sender: SessionState, receiver: SessionState) -> bool {
    reads_same_chain(sender, receiver) || reads_new_chain(sender, receiver)
}

/// The session's ratchet public key is that of its ratchet secret.
pub open spec fn owns_ratchet_key(s: SessionState) -> bool {
    s.dh_public == x25519_public_of(s.dh_secret)
}

/// Two sessions in conversation: each side that has a sending chain is in step with the
/// other side's receiving end.
pub open spec fn talking(a: SessionState, b: SessionState) -> bool {
    &&& owns_ratchet_key(a)
    &&& owns_ratchet_key(b)
    &&& a.sending_chain is Some ==> in_step(a, b)
    &&& b.sending_chain is Some ==> in_step(b, a)
}

/// Law (a conversation starts in step): the initiator's first session and the
/// responder's, over one X3DH secret and the responder's signed pre-key `t`, are talking,
/// given Diffie-Hellman agreement between the initiator's first ratchet secret and `t`.
pub proof fn lemma_conversation_starts(shared_secret: Seq<u8>, initiator_secret: Seq<u8>, t: Seq<u8>)
    requires
        x25519_shared(t, x25519_public_of(initiator_secret)) == x25519_shared(
            initiator_secret,
            x25519_public_of(t),
        ),
    ensures
        talking(
            initiator_state(shared_secret, x25519_public_of(t), initiator_secret),
            responder_state(shared_secret, t, x25519_public_of(t)),
        ),
{
}

/// Law (a conversation stays in step): when two sessions are talking, the next message
/// one sends decrypts at the other to its plaintext, and afterwards they are still
/// talking. The receiver's new ratchet secret `fresh`, where it takes a DH ratchet step,
/// must be new to the sender (no key of it known or stored there) and agree with the
/// sender's ratchet secret under Diffie-Hellman; the sending counter must not be
/// exhausted.
pub proof fn lemma_conversation_step(
    a: SessionState,
    b: SessionState,
    plaintext: Seq<u8>,
    encrypted: Encrypted,
    fresh: Seq<u8>,
)
    requires
        talking(a, b),
        a.sending_chain matches Some(c) && c.1 < u32::MAX,
        opened(next_sending_key(a), encrypted, header_json(next_header(a))) == Some(plaintext),
        a.remote_dh_public != Some(x25519_public_of(fresh)),
        none_stored_for(a, x25519_public_of(fresh)),
        x25519_shared(a.dh_secret, x25519_public_of(fresh)) == x25519_shared(fresh, a.dh_public),
    ensures
        decrypt_spec(b, next_header(a), encrypted, fresh).1 == DecryptOutcome::Plaintext(plaintext),
        talking(advance_sending(a), decrypt_spec(b, next_header(a), encrypted, fresh).0),
{
    let c = a.sending_chain.unwrap();
    let h = next_header(a);
    let a2 = advance_sending(a);
    let b2 = decrypt_spec(b, h, encrypted, fresh).0;
    assert(!b.skipped_keys.contains_key((a.dh_public, c.1)));
    if reads_same_chain(a, b) {
        lemma_same_chain_message_delivered(a, b, plaintext, encrypted, fresh);
        assert(b2 == SessionState { receiving_chain: a2.sending_chain, ..b });
        assert(none_stored_for(b2, a2.dh_public));
        assert(reads_same_chain(a2, b2));
        if b2.sending_chain is Some {
            assert(in_step(b, a));
            if reads_same_chain(b, a) {
                assert(reads_same_chain(b2, a2));
            } else {
                assert(reads_new_chain(b2, a2));
            }
        }
    } else {
        assert(reads_new_chain(a, b));
        lemma_new_chain_message_delivered(a, b, plaintext, encrypted, fresh);
        let s1 = skip_current_receiving(b, h.previous_chain_length).0;
        assert(s1 == b);
        let s2 = ratchet_send(ratchet_receive(s1, h.dh_public_key), fresh);
        assert(s2.receiving_chain == Some((c.0, 0u32)));
        assert(skip_chain((c.0, 0u32), h.dh_public_key, 0u32, s2.skipped_keys).chain == (c.0, 0u32));
        assert(b2.skipped_keys == b.skipped_keys);
        assert(reads_same_chain(a2, b2));
        assert(b2.previous_sending_chain_length == match b.sending_chain {
            Some(bc) => bc.1,
            None => 0u32,
        });
        assert(ratchet_keys_match(b2, a2));
        if b.sending_chain is Some {
            assert(in_step(b, a));
        }
        assert(reads_new_chain(b2, a2));
    }
}

/// Skipping through a chain only stores keys for the numbers it passes.
proof fn lemma_skip_chain_adds_only_passed(
    chain: (Seq<u8>, u32),
    dh: Seq<u8>,
    until: u32,
    skipped: Map<(Seq<u8>, u32), Seq<u8>>,
    x: (Seq<u8>, u32),
)
    requires
        !skipped.contains_key(x),
        !(x.0 == dh && chain.1 <= x.1 < until),
    ensures
        !skip_chain(chain, dh, until, skipped).skipped.contains_key(x),
    decreases until - chain.1,
{
    if chain.1 < until {
        let stored = skipped.insert((dh, chain.1), message_key_of(chain.0));
        let next = (next_chain_key(chain.0), (chain.1 + 1) as u32);
        if stored.len() <= MAX_SKIP {
            lemma_skip_chain_adds_only_passed(next, dh, until, stored, x);
        }
    }
}

/// Law (a message key opens one delivery): after a message decrypts, its key is no longer
/// held. A key stored for it is removed; a key taken from the receiving chain leaves that
/// chain, now following the message's ratchet key, past the message's number, with no
/// key stored for it.
pub proof fn lemma_message_key_used_once(s: SessionState, h: HeaderFields, encrypted: Encrypted, fresh: Seq<u8>)
    ensures
        decrypt_spec(s, h, encrypted, fresh).1 is Plaintext ==> {
            let after = decrypt_spec(s, h, encrypted, fresh).0;
            &&& !after.skipped_keys.contains_key((h.dh_public_key, h.message_number))
            &&& !s.skipped_keys.contains_key((h.dh_public_key, h.message_number)) ==> (after.remote_dh_public
                == Some(h.dh_public_key) && (after.receiving_chain matches Some(c) && c.1 > h.message_number))
        },
{
    let id = (h.dh_public_key, h.message_number);
    if !s.skipped_keys.contains_key(id) && decrypt_spec(s, h, encrypted, fresh).1 is Plaintext {
        let skipped_current = if needs_ratchet(s, h) {
            skip_current_receiving(s, h.previous_chain_length)
        } else {
            (s, true)
        };
        let s1 = skipped_current.0;
        if needs_ratchet(s, h) {
            if let (Some(c0), Some(r0)) = (s.receiving_chain, s.remote_dh_public) {
                lemma_skip_chain_adds_only_passed(c0, r0, h.previous_chain_length, s.skipped_keys, id);
            }
        }
        assert(!s1.skipped_keys.contains_key(id));
        let s2 = if needs_ratchet(s, h) {
            ratchet_send(ratchet_receive(s1, h.dh_public_key), fresh)
        } else {
            s1
        };
        let c = s2.receiving_chain.unwrap();
        lemma_skip_chain_adds_only_passed(c, h.dh_public_key, h.message_number, s2.skipped_keys, id);
        lemma_skip_chain_index(c, h.dh_public_key, h.message_number, s2.skipped_keys);
    }
}

fn skip_chain_exec(chain: &mut ChainKey, dh: &[u8], until: u32, skipped: &mut SkippedKeys) -> (ok: bool)
    ensures
        final(chain)@ == skip_chain(old(chain)@, dh@, until, old(skipped)@).chain,
        final(skipped)@ == skip_chain(old(chain)@, dh@, until, old(skipped)@).skipped,
        ok == skip_chain(old(chain)@, dh@, until, old(skipped)@).ok,
{
    let ghost target = skip_chain(chain@, dh@, until, skipped@);
    while chain.index() < until
        invariant
            skip_chain(chain@, dh@, until, skipped@) == target,
            target == skip_chain(old(chain)@, dh@, until, old(skipped)@),
        decreases until - chain@.1,
    {
        let ghost prev_chain = chain@;
        let ghost prev_skipped = skipped@;
        let message_key = match chain.advance() {
            Ok(k) => k,
            Err(_) => {
                assert(false);
                Vec::new()
            },
        };
        skipped.insert(to_vec(dh), chain.index() - 1, message_key);
        assert(skipped@ == prev_skipped.insert((dh@, prev_chain.1), message_key_of(prev_chain.0)));
        if skipped.len() > MAX_SKIP as usize {
            assert(skip_chain(prev_chain, dh@, until, prev_skipped) == SkipResult { chain: chain@, skipped: skipped@, ok: false });
            return false;
        }
    }
    true
}

impl Session {
    /// Start a session as the initiator with a given first ratchet secret: one DH ratchet
    /// step against the responder's signed pre-key establishes the sending chain. The
    /// session is ready to deliver to a responder whose signed pre-key secret is any `t`
    /// with that public key.
    pub fn init_alice_with_secret(shared_secret: &[u8], bob_spk_public: PublicKey, dh_secret: [u8; 32]) -> (r: Self)
        ensures
            r@ == initiator_state(shared_secret@, bob_spk_public@, dh_secret@),
            forall|t: Seq<u8>|
                t.len() == 32 && #[trigger] x25519_public_of(t) == bob_spk_public@ ==> ratchet_keys_match(
                    r@,
                    responder_state(shared_secret@, t, bob_spk_public@),
                ),
    {
        let dh_public = public_key_of(&dh_secret);
        let dh_output = dh(&dh_secret, &bob_spk_public);
        let (root_key, chain_key) = match dh_ratchet_step(shared_secret, dh_output.as_slice()) {
            Ok(p) => p,
            Err(_) => {
                assert(false);
                (Vec::new(), Vec::new())
            },
        };
        let r = Session {
            root_key,
            dh_secret,
            dh_public,
            remote_dh_public: Some(bob_spk_public),
            sending_chain: Some(ChainKey::new(chain_key, 0)),
            receiving_chain: None,
            previous_sending_chain_length: 0,
            skipped_keys: SkippedKeys::new(),
        };
        assert(r@ =~= initiator_state(shared_secret@, bob_spk_public@, dh_secret@));
        r
    }

    /// Start a session as the initiator (Alice) with a random first ratchet secret.
    pub fn init_alice(shared_secret: &[u8], bob_spk_public: PublicKey) -> (r: Self)
        ensures
            exists|a: Seq<u8>| a.len() == 32 && #[trigger] initiator_state(shared_secret@, bob_spk_public@, a) == r@,
            forall|t: Seq<u8>|
                t.len() == 32 && #[trigger] x25519_public_of(t) == bob_spk_public@ ==> ratchet_keys_match(
                    r@,
                    responder_state(shared_secret@, t, bob_spk_public@),
                ),
    {
        let dh_secret = x25519_random_secret();
        let r = Self::init_alice_with_secret(shared_secret, bob_spk_public, dh_secret);
        assert(initiator_state(shared_secret@, bob_spk_public@, dh_secret@) == r@);
        r
    }

    /// Start a session as the responder (Bob): the signed pre-key is the first ratchet
    /// keypair and the shared secret the root key; no chains exist until the first
    /// message arrives.
    pub fn init_bob(shared_secret: &[u8], our_spk: &SignedPreKey) -> (r: Self)
        ensures
            r@ == responder_state(shared_secret@, our_spk.secret_seed(), our_spk.public()),
    {
        let r = Session {
            root_key: to_vec(shared_secret),
            dh_secret: our_spk.secret_bytes(),
            dh_public: *our_spk.public_key(),
            remote_dh_public: None,
            sending_chain: None,
            receiving_chain: None,
            previous_sending_chain_length: 0,
            skipped_keys: SkippedKeys::new(),
        };
        assert(r@ =~= responder_state(shared_secret@, our_spk.secret_seed(), our_spk.public()));
        r
    }

    /// Encrypt a message with the next key of the sending chain. Fails with a ratchet
    /// error when there is no sending chain (the session is unchanged then), and with an
    /// encryption error when an input is too long for AES-GCM (the chain has advanced).
    /// The ciphertext authenticates the header as its associated data.
    pub fn encrypt(&mut self, plaintext: &[u8]) -> (r: Result<(MessageHeader, Encrypted)>)
        requires
            old(self)@.sending_chain matches Some(c) ==> c.1 < u32::MAX,
        ensures
            old(self)@.sending_chain is None ==> final(self)@ == old(self)@,
            old(self)@.sending_chain is None ==> (r matches Err(CryptoError::Ratchet(m)) && m@
                == "No sending chain established"@),
            old(self)@.sending_chain is Some ==> final(self)@ == advance_sending(old(self)@),
            old(self)@.sending_chain is Some ==> ((plaintext@.len() <= AEAD_MAX_INPUT && header_json(
                next_header(old(self)@),
            ).len() <= AEAD_MAX_INPUT) <==> r is Ok),
            old(self)@.sending_chain is Some && r is Err ==> (r matches Err(CryptoError::Encryption(m))
                && m@ == "Encryption failed: aead::Error"@),
            r matches Ok((h, e)) ==> h.dh_public_key@.len() == 32 && e.ciphertext@.len() == plaintext@.len() + 16,
            r matches Ok((h, e)) ==> h@ == next_header(old(self)@) && e.nonce@.len() == NONCE_LEN
                && e.ciphertext@ == aes256gcm_seal(
                next_sending_key(old(self)@),
                e.nonce@,
                plaintext@,
                header_json(h@),
            ) && opened(next_sending_key(old(self)@), e, header_json(h@)) == Some(plaintext@),
    {
        let mut sending_chain = match self.sending_chain.take() {
            Some(c) => c,
            None => {
                return Err(CryptoError::Ratchet(String::from_str("No sending chain established")));
            },
        };
        let message_key = match sending_chain.advance() {
            Ok(k) => k,
            Err(_) => {
                assert(false);
                Vec::new()
            },
        };
        let msg_num = sending_chain.index() - 1;
        self.sending_chain = Some(sending_chain);
        let header = MessageHeader::new(&self.dh_public, msg_num, self.previous_sending_chain_length);
        let key = array32_from_slice(message_key.as_slice());
        let associated_data = header.to_bytes();
        let encrypted = crate::aead::encrypt(&key, plaintext, associated_data.as_slice())?;
        Ok((header, encrypted))
    }

    /// Skip the remaining messages of the current receiving chain up to `until`, storing
    /// their keys under the current remote key.
    fn skip_current_receiving_chain(&mut self, until: u32) -> (r: Result<()>)
        ensures
            final(self)@ == skip_current_receiving(old(self)@, until).0,
            skip_current_receiving(old(self)@, until).1 ==> r is Ok,
            !skip_current_receiving(old(self)@, until).1 ==> (r matches Err(CryptoError::Ratchet(m))
                && m@ == "Too many skipped messages"@),
    {
        let mut chain = match self.receiving_chain.take() {
            Some(c) => c,
            None => {
                return Ok(());
            },
        };
        let remote_bytes = match &self.remote_dh_public {
            Some(remote) => to_vec(remote.as_bytes()),
            None => {
                self.receiving_chain = Some(chain);
                return Ok(());
            },
        };
        let ok = skip_chain_exec(&mut chain, remote_bytes.as_slice(), until, &mut self.skipped_keys);
        self.receiving_chain = Some(chain);
        if ok {
            Ok(())
        } else {
            Err(CryptoError::Ratchet(String::from_str("Too many skipped messages")))
        }
    }

    /// Decrypt a received message, adopting `ratchet_secret` as the new ratchet secret if
    /// the message starts a DH ratchet step. A stored skipped key is used first; otherwise
    /// a change of the sender's ratchet key triggers a ratchet step, the receiving chain
    /// skips ahead to the message number, and the message key opens the ciphertext.
    /// After a ratchet step, the new sending chain is the one the peer derives from its
    /// own secret `t` (the one behind the header's key) and the root key it shares.
    pub fn decrypt_with_ratchet_secret(&mut self, header: &MessageHeader, encrypted: &Encrypted, ratchet_secret: [u8; 32]) -> (r: Result<Vec<u8>>)
        requires
            header.dh_public_key@.len() == 32,
            decrypt_stage_spec(old(self)@, header@) == DecryptStage::Opens ==> encrypted.nonce@.len()
                == NONCE_LEN,
            decrypt_stage_spec(old(self)@, header@) != DecryptStage::CounterExhausted,
        ensures
            final(self)@ == decrypt_spec(old(self)@, header@, *encrypted, ratchet_secret@).0,
            reports(r, decrypt_spec(old(self)@, header@, *encrypted, ratchet_secret@).1),
            ratchets(old(self)@, header@) ==> forall|t: Seq<u8>|
                t.len() == 32 && #[trigger] x25519_public_of(t) == header.dh_public_key@
                    ==> ratchet_step(
                    received_root(old(self)@, header@),
                    x25519_shared(t, final(self)@.dh_public),
                ) == (final(self)@.root_key, final(self)@.sending_chain.unwrap().0),
    {
        let ghost s0 = self@;
        proof {
            lemma_stage_of_decrypt(s0, header@, *encrypted, ratchet_secret@);
        }
        match self.skipped_keys.remove(header.dh_public_key.as_slice(), header.message_number) {
            Some(mk) => {
                let key = array32_from_slice(mk.as_slice());
                let associated_data = header.to_bytes();
                assert(self@ =~= decrypt_spec(s0, header@, *encrypted, ratchet_secret@).0);
                return crate::aead::decrypt(&key, encrypted, associated_data.as_slice());
            },
            None => {},
        }
        let header_dh_public = header.to_public_key();
        let need_ratchet = match &self.remote_dh_public {
            None => true,
            Some(remote) => !bytes_equal(remote.as_bytes(), header_dh_public.as_bytes()),
        };
        assert(need_ratchet == needs_ratchet(s0, header@));
        if need_ratchet {
            self.skip_current_receiving_chain(header.previous_chain_length)?;
            let dh_output = dh(&self.dh_secret, &header_dh_public);
            let (root_key, recv_chain_key) = match dh_ratchet_step(self.root_key.as_slice(), dh_output.as_slice()) {
                Ok(p) => p,
                Err(_) => {
                    assert(false);
                    (Vec::new(), Vec::new())
                },
            };
            self.root_key = root_key;
            self.receiving_chain = Some(ChainKey::new(recv_chain_key, 0));
            self.remote_dh_public = Some(header_dh_public);
            self.previous_sending_chain_length = match &self.sending_chain {
                Some(c) => c.index(),
                None => 0,
            };
            let ghost s_received = self@;
            let new_public = public_key_of(&ratchet_secret);
            let dh_output = dh(&ratchet_secret, &header_dh_public);
            let (root_key, send_chain_key) = match dh_ratchet_step(self.root_key.as_slice(), dh_output.as_slice()) {
                Ok(p) => p,
                Err(_) => {
                    assert(false);
                    (Vec::new(), Vec::new())
                },
            };
            self.root_key = root_key;
            self.dh_secret = ratchet_secret;
            self.dh_public = new_public;
            self.sending_chain = Some(ChainKey::new(send_chain_key, 0));
            assert(s_received =~= ratchet_receive(skip_current_receiving(s0, header.previous_chain_length).0, header.dh_public_key@));
            assert(self@ =~= ratchet_send(s_received, ratchet_secret@));
        }
        let ghost s2 = self@;
        let mut recv_chain = match self.receiving_chain.take() {
            Some(c) => c,
            None => {
                assert(self@ =~= s2);
                return Err(CryptoError::Ratchet(String::from_str("No receiving chain established")));
            },
        };
        let ok = skip_chain_exec(&mut recv_chain, header.dh_public_key.as_slice(), header.message_number, &mut self.skipped_keys);
        if !ok {
            self.receiving_chain = Some(recv_chain);
            return Err(CryptoError::Ratchet(String::from_str("Too many skipped messages")));
        }
        let message_key = match recv_chain.advance() {
            Ok(k) => k,
            Err(_) => {
                assert(false);
                Vec::new()
            },
        };
        self.receiving_chain = Some(recv_chain);
        let key = array32_from_slice(message_key.as_slice());
        let associated_data = header.to_bytes();
        crate::aead::decrypt(&key, encrypted, associated_data.as_slice())
    }

    /// Whether encrypting would run the sending counter past `u32::MAX`.
    pub fn sending_counter_exhausted(&self) -> (r: bool)
        ensures
            r == (self@.sending_chain matches Some(c) && c.1 == u32::MAX),
    {
        match &self.sending_chain {
            Some(c) => c.index() == u32::MAX,
            None => false,
        }
    }

    /// How far decrypting a message with this header would get before its ciphertext is
    /// read; the session is left as it is.
    pub fn decrypt_stage(&self, header: &MessageHeader) -> (r: DecryptStage)
        requires
            header.dh_public_key@.len() == 32,
        ensures
            r == decrypt_stage_spec(self@, header@),
    {
        if self.skipped_keys.contains(header.dh_public_key.as_slice(), header.message_number) {
            return DecryptStage::Opens;
        }
        let mut skipped = self.skipped_keys.duplicate();
        let header_dh_public = header.to_public_key();
        let need_ratchet = match &self.remote_dh_public {
            None => true,
            Some(remote) => !bytes_equal(remote.as_bytes(), header_dh_public.as_bytes()),
        };
        assert(need_ratchet == needs_ratchet(self@, header@));
        let chain = if need_ratchet {
            match (&self.receiving_chain, &self.remote_dh_public) {
                (Some(c), Some(remote)) => {
                    let mut current = c.duplicate();
                    if !skip_chain_exec(&mut current, remote.as_bytes(), header.previous_chain_length, &mut skipped) {
                        return DecryptStage::TooManySkipped;
                    }
                },
                _ => {},
            }
            let dh_output = dh(&self.dh_secret, &header_dh_public);
            let recv_chain_key = match dh_ratchet_step(self.root_key.as_slice(), dh_output.as_slice()) {
                Ok(p) => p.1,
                Err(_) => {
                    assert(false);
                    Vec::new()
                },
            };
            Some(ChainKey::new(recv_chain_key, 0))
        } else {
            match &self.receiving_chain {
                Some(c) => Some(c.duplicate()),
                None => None,
            }
        };
        match chain {
            None => DecryptStage::NoReceivingChain,
            Some(c) => {
                let mut c = c;
                if !skip_chain_exec(&mut c, header.dh_public_key.as_slice(), header.message_number, &mut skipped) {
                    DecryptStage::TooManySkipped
                } else if c.index() == u32::MAX {
                    DecryptStage::CounterExhausted
                } else {
                    DecryptStage::Opens
                }
            },
        }
    }

    /// Decrypt a received message; a DH ratchet step adopts a fresh random ratchet secret.
    pub fn decrypt(&mut self, header: &MessageHeader, encrypted: &Encrypted) -> (r: Result<Vec<u8>>)
        requires
            header.dh_public_key@.len() == 32,
            decrypt_stage_spec(old(self)@, header@) == DecryptStage::Opens ==> encrypted.nonce@.len()
                == NONCE_LEN,
            decrypt_stage_spec(old(self)@, header@) != DecryptStage::CounterExhausted,
        ensures
            exists|fresh: Seq<u8>|
                fresh.len() == 32 && #[trigger] decrypt_spec(old(self)@, header@, *encrypted, fresh).0
                    == final(self)@ && reports(r, decrypt_spec(old(self)@, header@, *encrypted, fresh).1),
    {
        let ratchet_secret = x25519_random_secret();
        self.decrypt_with_ratchet_secret(header, encrypted, ratchet_secret)
    }
}

} // verus!
