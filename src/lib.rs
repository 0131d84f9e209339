//! Deterministic derivation of a receive/change pair of single-key
//! witness-pay-to-public-key-hash descriptors from a mnemonic phrase.

pub mod descriptor;
pub mod keys;
pub mod laws;
pub mod path;
