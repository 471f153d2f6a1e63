pub mod keys;

pub use keys::{IdentityKeyPair, KeyBundle, OneTimePreKey, SignedPreKey};
