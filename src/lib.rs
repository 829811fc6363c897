//! Unmasking of RPG Maker MV obfuscated image assets.
//!
//! An encoded asset is a fixed signature, followed by a block of bytes that
//! was XOR-masked against a per-project key, followed by plain payload bytes.
//! [`decryptor::Decryptor::decode`] checks the asset and returns the payload with the
//! masked block restored.
pub mod hexkey;
pub mod decryptor;
pub mod laws;
