//! A two-bit XOR relation as an arithmetic circuit, the sizing and caching of
//! the universal setup it is proved against, and the byte layout in which a
//! proof is handed to an on-chain verifier.

pub mod circuit;
pub mod primitives;
pub mod encoding;
pub mod setup;
pub mod session;
