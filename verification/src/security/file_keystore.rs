use vstd::prelude::*;

use super::aead::{aes256gcm_decrypt, aes256gcm_encrypt, aes256gcm_open, aes256gcm_seal, aes_gcm_max_plaintext, NONCE_LEN};
use super::keystore::KeyStoreError;
use crate::platform::random_bytes;
use crate::text::{concat_str, join_path, join_path_spec};

verus! {

/// A blob as stored on disk: the nonce followed by the ciphertext.
pub open spec fn sealed_blob(key: Seq<u8>, nonce: Seq<u8>, plaintext: Seq<u8>) -> Seq<u8> {
    nonce + aes256gcm_seal(key, nonce, plaintext)
}

/// What opening a blob gives: the plaintext under the nonce that heads it,
/// or `None` (too short, or the tag does not check).
pub open spec fn open_blob(key: Seq<u8>, blob: Seq<u8>) -> Option<Seq<u8>> {
    if blob.len() < NONCE_LEN {
        None
    } else {
        aes256gcm_open(key, blob.subrange(0, NONCE_LEN as int), blob.subrange(NONCE_LEN as int, blob.len() as int))
    }
}

/// Seals `plaintext` under `key` with a fresh random nonce: the blob is the
/// nonce followed by the AES-256-GCM ciphertext. Fails only for plaintexts
/// longer than AES-GCM accepts.
pub fn seal_secret(key: &[u8; 32], plaintext: &[u8]) -> (r: Result<Vec<u8>, String>)
    ensures
        r is Ok <==> plaintext@.len() <= aes_gcm_max_plaintext(),
        r matches Ok(b) ==> b@.len() >= NONCE_LEN && b@ == sealed_blob(key@, b@.subrange(0, NONCE_LEN as int), plaintext@),
        r matches Err(e) ==> e@ == "aead::Error"@,
{
    let nonce = random_bytes(NONCE_LEN);
    let ct = aes256gcm_encrypt(key, nonce.as_slice(), plaintext)?;
    let mut out: Vec<u8> = Vec::new();
    let mut i: usize = 0;
    while i < nonce.len()
        invariant
            i <= nonce@.len(),
            out@ == nonce@.subrange(0, i as int),
        decreases nonce@.len() - i,
    {
        out.push(nonce[i]);
        i = i + 1;
        assert(out@ =~= nonce@.subrange(0, i as int));
    }
    let mut j: usize = 0;
    while j < ct.len()
        invariant
            j <= ct@.len(),
            out@ == nonce@ + ct@.subrange(0, j as int),
        decreases ct@.len() - j,
    {
        out.push(ct[j]);
        j = j + 1;
        assert(out@ =~= nonce@ + ct@.subrange(0, j as int));
    }
    assert(out@ =~= nonce@ + ct@);
    assert(out@.subrange(0, NONCE_LEN as int) =~= nonce@);
    Ok(out)
}

/// Opens a blob written by `seal_secret`: fails with the message of a short
/// blob when it is shorter than a nonce, else decrypts what follows the nonce.
pub fn open_secret(key: &[u8; 32], blob: &[u8], too_short: &str) -> (r: Result<Vec<u8>, String>)
    ensures
        blob@.len() < NONCE_LEN ==> (r matches Err(e) && e@ == too_short@),
        r is Ok <==> open_blob(key@, blob@) is Some,
        r matches Ok(p) ==> open_blob(key@, blob@) == Some(p@),
        blob@.len() >= NONCE_LEN ==> (r matches Err(e) ==> e@ == "aead::Error"@),
        forall|nonce: Seq<u8>, p: Seq<u8>|
            nonce.len() == NONCE_LEN && p.len() <= aes_gcm_max_plaintext() && blob@ == #[trigger] sealed_blob(key@, nonce, p)
                ==> (r matches Ok(v) && v@ == p),
{
    if blob.len() < NONCE_LEN {
        return Err(String::from_str(too_short));
    }
    let nonce = vstd::slice::slice_subrange(blob, 0, NONCE_LEN);
    let ct = vstd::slice::slice_subrange(blob, NONCE_LEN, blob.len());
    proof {
        assert forall|n: Seq<u8>, p: Seq<u8>|
            n.len() == NONCE_LEN && p.len() <= aes_gcm_max_plaintext() && blob@ == #[trigger] sealed_blob(key@, n, p)
            implies nonce@ == n && ct@ == aes256gcm_seal(key@, n, p) by {
            assert(blob@.subrange(0, NONCE_LEN as int) =~= n);
            assert(blob@.subrange(NONCE_LEN as int, blob@.len() as int) =~= aes256gcm_seal(key@, n, p));
        }
    }
    aes256gcm_decrypt(key, nonce, ct)
}

/// Keeps each agent's secret in its own encrypted file `<agent_id>.key` in a
/// directory, under a 32-byte master key.
pub struct EncryptedFileKeyStore {
    pub dir: String,
    pub master_key: [u8; 32],
}

impl EncryptedFileKeyStore {
    /// The file that holds the secret of `agent_id`.
    pub fn path_for(&self, agent_id: &str) -> (p: String)
        ensures
            p@ == join_path_spec(self.dir@, agent_id@ + ".key"@),
    {
        let name = concat_str(agent_id, ".key");
        join_path(self.dir.as_str(), name.as_str())
    }

    /// The blob to write for `plaintext` (see `seal_secret`); a failure is a
    /// crypto error.
    pub fn encrypt(&self, plaintext: &[u8]) -> (r: Result<Vec<u8>, KeyStoreError>)
        ensures
            r is Ok <==> plaintext@.len() <= aes_gcm_max_plaintext(),
            r matches Ok(b) ==> b@.len() >= NONCE_LEN && b@ == sealed_blob(
                self.master_key@,
                b@.subrange(0, NONCE_LEN as int),
                plaintext@,
            ),
            r matches Err(e) ==> e is Crypto,
    {
        match seal_secret(&self.master_key, plaintext) {
            Ok(b) => Ok(b),
            Err(e) => Err(KeyStoreError::Crypto(e)),
        }
    }

    /// The secret in a blob read from disk: `Crypto("data too short")` when
    /// it is shorter than a nonce, a crypto error when it does not decrypt.
    /// A blob that `encrypt` made gives back its plaintext.
    pub fn decrypt(&self, data: &[u8]) -> (r: Result<Vec<u8>, KeyStoreError>)
        ensures
            r is Ok <==> open_blob(self.master_key@, data@) is Some,
            r matches Ok(p) ==> open_blob(self.master_key@, data@) == Some(p@),
            r matches Err(e) ==> e is Crypto,
            data@.len() < NONCE_LEN ==> (r matches Err(KeyStoreError::Crypto(m)) && m@ == "data too short"@),
            forall|nonce: Seq<u8>, p: Seq<u8>|
                nonce.len() == NONCE_LEN && p.len() <= aes_gcm_max_plaintext() && data@
                    == #[trigger] sealed_blob(self.master_key@, nonce, p) ==> (r matches Ok(v) && v@ == p),
    {
        match open_secret(&self.master_key, data, "data too short") {
            Ok(p) => Ok(p),
            Err(e) => Err(KeyStoreError::Crypto(e)),
        }
    }
}

} // verus!
