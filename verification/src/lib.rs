pub mod error;
pub mod bytes;
pub mod json;
pub mod curve;
pub mod kdf;
pub mod aead;
pub mod identity;
pub mod x3dh;

pub use error::{CryptoError, Result};
pub mod ratchet;
pub mod pqc;
pub mod mls;
pub mod api;
pub mod wire;
