//! Post-quantum hybrid key encapsulation (ML-KEM-768 combined with X25519).

pub mod hybrid_kem;
