use vstd::prelude::*;

use crate::security::aead::{aes_gcm_max_plaintext, NONCE_LEN};
use crate::security::file_keystore::{open_blob, open_secret, seal_secret, sealed_blob};
use crate::text::{concat_str, join_path, join_path_spec};

verus! {

/// Why a key could not be stored, found or read back.
#[derive(Debug)]
pub enum KeyStoreError {
    NotFound,
    Io(std::io::Error),
    Crypto(String),
}

/// Storage of named keys.
pub trait KeyStore: Send + Sync {
    fn store(&self, key_id: &str, secret: &[u8]) -> Result<(), KeyStoreError>;

    fn load(&self, key_id: &str) -> Result<Vec<u8>, KeyStoreError>;

    fn delete(&self, key_id: &str) -> Result<(), KeyStoreError>;
}

/// Keys encrypted under a master key, one file `<key_id>.enc` each in a directory.
pub struct EncryptedFileStore {
    dir: String,
    master_key: [u8; 32],
}

impl EncryptedFileStore {
    /// The directory of the key files.
    pub closed spec fn directory(&self) -> Seq<char> {
        self.dir@
    }

    /// The master key.
    pub closed spec fn key(&self) -> Seq<u8> {
        self.master_key@
    }

    /// A store in `dir` under `master_key`.
    pub fn new(dir: &str, master_key: [u8; 32]) -> (s: EncryptedFileStore)
        ensures
            s.directory() == dir@,
            s.key() == master_key@,
    {
        EncryptedFileStore { dir: String::from_str(dir), master_key }
    }

    /// The directory of the key files.
    pub fn dir(&self) -> (d: &str)
        ensures
            d@ == self.directory(),
    {
        self.dir.as_str()
    }

    /// The file of `key_id`: `<dir>/<key_id>.enc`.
    pub fn path_for(&self, key_id: &str) -> (p: String)
        ensures
            p@ == join_path_spec(self.directory(), key_id@ + ".enc"@),
    {
        let name = concat_str(key_id, ".enc");
        join_path(self.dir.as_str(), name.as_str())
    }

    /// The bytes to write for `secret`: a fresh nonce followed by the
    /// ciphertext. Fails (crypto error) only for over-long secrets.
    pub fn seal(&self, secret: &[u8]) -> (r: Result<Vec<u8>, KeyStoreError>)
        ensures
            r is Ok <==> secret@.len() <= aes_gcm_max_plaintext(),
            r matches Ok(b) ==> b@.len() >= NONCE_LEN && b@ == sealed_blob(
                self.key(),
                b@.subrange(0, NONCE_LEN as int),
                secret@,
            ),
            r matches Err(e) ==> e is Crypto,
    {
        match seal_secret(&self.master_key, secret) {
            Ok(b) => Ok(b),
            Err(e) => Err(KeyStoreError::Crypto(e)),
        }
    }

    /// The secret in bytes read from a key file: `Crypto("blob too short")`
    /// for fewer bytes than a nonce, a crypto error when they do not decrypt.
    /// Bytes made by `seal` give back the secret.
    pub fn open(&self, blob: &[u8]) -> (r: Result<Vec<u8>, KeyStoreError>)
        ensures
            r is Ok <==> open_blob(self.key(), blob@) is Some,
            r matches Ok(p) ==> open_blob(self.key(), blob@) == Some(p@),
            r matches Err(e) ==> e is Crypto,
            blob@.len() < NONCE_LEN ==> (r matches Err(KeyStoreError::Crypto(m)) && m@ == "blob too short"@),
            forall|nonce: Seq<u8>, p: Seq<u8>|
                nonce.len() == NONCE_LEN && p.len() <= aes_gcm_max_plaintext() && blob@
                    == #[trigger] sealed_blob(self.key(), nonce, p) ==> (r matches Ok(v) && v@ == p),
    {
        match open_secret(&self.master_key, blob, "blob too short") {
            Ok(p) => Ok(p),
            Err(e) => Err(KeyStoreError::Crypto(e)),
        }
    }
}

} // verus!
