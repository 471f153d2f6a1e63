# ghostcrypt-crypto

The cryptographic core of GhostCrypt, an end-to-end encrypted messenger: X3DH key
agreement, the Double Ratchet, AES-256-GCM, HKDF/HMAC-SHA256, a hybrid X25519 +
ML-KEM-768 KEM, and MLS group messaging on openmls. The library is written in Verus:
each operation carries a contract, and Verus proves the code against it.

Layout:

- `src/` — the verified library.
  - `curve`, `kdf`, `aead`, `pqc`: the primitives, each a thin verified layer over
    x25519-dalek / ed25519-dalek, hkdf / hmac, aes-gcm and ml-kem; the outside calls sit
    in small trusted functions whose results are named (`x25519_shared`,
    `hkdf_sha256`, `aes256gcm_seal`, ...).
  - `identity`, `x3dh`: key types and the X3DH handshake; `respond` proves that the
    responder derives the initiator's secret.
  - `ratchet`: the Double Ratchet. `state` models a session as a `SessionState` and
    decryption as `decrypt_spec`; the laws `lemma_same_chain_message_delivered`,
    `lemma_new_chain_message_delivered`, `lemma_skipped_message_delivered` and
    `lemma_previous_chain_message_delivered` state in-order, new-chain, out-of-order and
    across-a-ratchet-step delivery; `lemma_conversation_starts` and
    `lemma_conversation_step` state that two sessions stay in step message after message;
    `lemma_message_key_used_once` that a decrypted message's key is no longer held.
    `Session::decrypt_stage` tells, without
    touching the session, how far a decryption would get before the ciphertext is read
    (`lemma_stage_of_decrypt`: neither the ciphertext nor the new ratchet secret changes it).
  - `json`, `ratchet::header`, `mls::bundle`: the compact JSON the library writes (the
    header as AEAD associated data, the MLS state blobs), with exact parsers.
  - `wire`: the browser surface's JSON-with-base64 formats (pre-key bundle, message
    header, keys), read with its error messages in their order.
  - `mls`: stateless MLS group operations; `mls::openmls_api` holds the trusted calls.
  - `api`: the byte-oriented surface with session and MLS-state stores by handle; the
    stores keep their handles fresh (a type invariant, until the counter wraps) and
    `lemma_store_round_trip` states the round trip through `session_encrypt` and
    `session_decrypt`.
- `tests/` — the test suites.
- `app/` — the process-wide stores behind locks (flutter_rust_bridge), the wasm-bindgen
  bindings, and copies of the data types with serde/thiserror derives.
