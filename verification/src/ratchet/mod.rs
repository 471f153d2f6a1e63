pub mod chain;
pub mod dh_ratchet;
pub mod header;
pub mod skipped;
pub mod state;

pub use chain::ChainKey;
pub use header::MessageHeader;
pub use state::Session;
