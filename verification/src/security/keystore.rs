use vstd::prelude::*;

verus! {

/// Why a secret could not be stored, found or read back.
#[derive(Debug)]
pub enum KeyStoreError {
    NotFound,
    Io(String),
    Crypto(String),
}

/// Storage of per-agent secrets.
pub trait KeyStore: Send + Sync {
    fn store(&mut self, agent_id: &str, secret: &[u8]) -> Result<(), KeyStoreError>;

    fn load(&self, agent_id: &str) -> Result<Vec<u8>, KeyStoreError>;

    fn delete(&mut self, agent_id: &str) -> Result<(), KeyStoreError>;
}

} // verus!
