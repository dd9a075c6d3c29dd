use vstd::prelude::*;

use crate::security::mac::{hmac_sha256, hmac_sha256_check, hmac_sha256_tag};

verus! {

/// Whether `signature` is the HMAC-SHA256 tag of `blob` under `public_key`.
pub fn verify_blob(blob: &[u8], signature: &[u8], public_key: &[u8]) -> (ok: bool)
    ensures
        ok == (signature@ == hmac_sha256(public_key@, blob@)),
{
    hmac_sha256_check(public_key, blob, signature)
}

/// The HMAC-SHA256 tag of `blob` under `key`.
pub fn sign_blob(blob: &[u8], key: &[u8]) -> (sig: Vec<u8>)
    ensures
        sig@ == hmac_sha256(key@, blob@),
        sig@.len() == 32,
{
    hmac_sha256_tag(key, blob)
}

} // verus!
