use vstd::prelude::*;

verus! {

/// Errors reported by the cryptographic core. Each variant carries a
/// human-readable detail message.
#[derive(Debug, Clone)]
pub enum CryptoError {
    KeyGeneration(String),
    KeyExchange(String),
    Encryption(String),
    Decryption(String),
    InvalidSignature(String),
    InvalidKey(String),
    Ratchet(String),
    Serialization(String),
    Mls(String),
    MlsGroupNotFound(String),
}

/// The result type used throughout the crate.
pub type Result<T> = core::result::Result<T, CryptoError>;

impl CryptoError {
    /// The detail message carried by the error.
    pub open spec fn detail(&self) -> Seq<char> {
        match self {
            CryptoError::KeyGeneration(m) => m@,
            CryptoError::KeyExchange(m) => m@,
            CryptoError::Encryption(m) => m@,
            CryptoError::Decryption(m) => m@,
            CryptoError::InvalidSignature(m) => m@,
            CryptoError::InvalidKey(m) => m@,
            CryptoError::Ratchet(m) => m@,
            CryptoError::Serialization(m) => m@,
            CryptoError::Mls(m) => m@,
            CryptoError::MlsGroupNotFound(m) => m@,
        }
    }

    /// The fixed prefix that the rendered message of each variant starts with.
    pub open spec fn prefix(&self) -> Seq<char> {
        match self {
            CryptoError::KeyGeneration(_) => "Key generation failed: "@,
            CryptoError::KeyExchange(_) => "Key exchange failed: "@,
            CryptoError::Encryption(_) => "Encryption failed: "@,
            CryptoError::Decryption(_) => "Decryption failed: "@,
            CryptoError::InvalidSignature(_) => "Invalid signature: "@,
            CryptoError::InvalidKey(_) => "Invalid key: "@,
            CryptoError::Ratchet(_) => "Ratchet error: "@,
            CryptoError::Serialization(_) => "Serialization error: "@,
            CryptoError::Mls(_) => "MLS error: "@,
            CryptoError::MlsGroupNotFound(_) => "MLS group not found: "@,
        }
    }

    /// Renders the error as text: the variant's prefix followed by its detail.
    pub fn to_string(&self) -> (r: String)
        ensures
            r@ == self.prefix() + self.detail(),
    {
        let (prefix, detail) = match self {
            CryptoError::KeyGeneration(m) => ("Key generation failed: ", m),
            CryptoError::KeyExchange(m) => ("Key exchange failed: ", m),
            CryptoError::Encryption(m) => ("Encryption failed: ", m),
            CryptoError::Decryption(m) => ("Decryption failed: ", m),
            CryptoError::InvalidSignature(m) => ("Invalid signature: ", m),
            CryptoError::InvalidKey(m) => ("Invalid key: ", m),
            CryptoError::Ratchet(m) => ("Ratchet error: ", m),
            CryptoError::Serialization(m) => ("Serialization error: ", m),
            CryptoError::Mls(m) => ("MLS error: ", m),
            CryptoError::MlsGroupNotFound(m) => ("MLS group not found: ", m),
        };
        let mut out = String::from_str(prefix);
        out.append(detail.as_str());
        out
    }
}

} // verus!
