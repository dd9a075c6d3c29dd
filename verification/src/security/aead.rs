use aes_gcm::aead::{Aead, KeyInit};
use aes_gcm::{Aes256Gcm, Nonce};
use vstd::prelude::*;

verus! {

/// Length of an AES-GCM nonce.
pub const NONCE_LEN: usize = 12;

/// The longest plaintext aes-gcm encrypts (`aes_gcm::P_MAX`, 2^36 bytes).
pub open spec fn aes_gcm_max_plaintext() -> int {
    0x10_0000_0000
}

/// The ciphertext (with its 16-byte tag) that AES-256-GCM gives for `plaintext`
/// under `key` and `nonce`, without associated data.
pub uninterp spec fn aes256gcm_seal(key: Seq<u8>, nonce: Seq<u8>, plaintext: Seq<u8>) -> Seq<u8>;

/// The plaintext AES-256-GCM recovers from `ciphertext` under `key` and
/// `nonce`, or `None` when the tag does not check.
pub uninterp spec fn aes256gcm_open(key: Seq<u8>, nonce: Seq<u8>, ciphertext: Seq<u8>) -> Option<Seq<u8>>;

/// `Aes256Gcm::new_from_slice` (a 32-byte key is always accepted) and
/// `Aead::encrypt`, which fails exactly when the plaintext exceeds `P_MAX`;
/// its error displays as `aead::Error`. The ciphertext is left to the name
/// `aes256gcm_seal`.
#[verifier::external_body]
pub(crate) fn aes256gcm_encrypt(key: &[u8; 32], nonce: &[u8], plaintext: &[u8]) -> (r: Result<Vec<u8>, String>)
    requires
        nonce@.len() == NONCE_LEN,
    ensures
        r is Ok <==> plaintext@.len() <= aes_gcm_max_plaintext(),
        r matches Ok(c) ==> c@ == aes256gcm_seal(key@, nonce@, plaintext@),
        r matches Err(e) ==> e@ == "aead::Error"@,
{
    let cipher = Aes256Gcm::new_from_slice(key).map_err(|e| e.to_string())?;
    cipher.encrypt(Nonce::from_slice(nonce), plaintext).map_err(|e| e.to_string())
}

/// `Aes256Gcm::new_from_slice` and `Aead::decrypt`; the plaintext is left to
/// the name `aes256gcm_open`. Decrypting what encryption produced under the
/// same key and nonce gives back the plaintext (AEAD correctness). Errors
/// display as `aead::Error`.
#[verifier::external_body]
pub(crate) fn aes256gcm_decrypt(key: &[u8; 32], nonce: &[u8], ciphertext: &[u8]) -> (r: Result<Vec<u8>, String>)
    requires
        nonce@.len() == NONCE_LEN,
    ensures
        r is Ok <==> aes256gcm_open(key@, nonce@, ciphertext@) is Some,
        r matches Ok(p) ==> aes256gcm_open(key@, nonce@, ciphertext@) == Some(p@),
        r matches Err(e) ==> e@ == "aead::Error"@,
        r is Err ==> forall|p: Seq<u8>|
            !(#[trigger] aes256gcm_seal(key@, nonce@, p) == ciphertext@ && p.len() <= aes_gcm_max_plaintext()),
        r matches Ok(v) ==> forall|p: Seq<u8>|
            #[trigger] aes256gcm_seal(key@, nonce@, p) == ciphertext@ && p.len() <= aes_gcm_max_plaintext() ==> v@ == p,
{
    let cipher = Aes256Gcm::new_from_slice(key).map_err(|e| e.to_string())?;
    cipher.decrypt(Nonce::from_slice(nonce), ciphertext).map_err(|e| e.to_string())
}

} // verus!
