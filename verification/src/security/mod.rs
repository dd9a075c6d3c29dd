//! Signing, compression and secret storage.
pub mod aead;
pub mod compress;
pub mod file_keystore;
pub mod keystore;
pub mod mac;
pub mod os_keystore;
pub mod signer;
