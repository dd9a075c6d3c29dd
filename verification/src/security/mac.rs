use hmac::{Hmac, Mac};
use sha2::Sha256;
use vstd::prelude::*;

verus! {

/// The HMAC-SHA256 tag of `data` under `key`, as the `hmac` and `sha2` crates compute it.
pub uninterp spec fn hmac_sha256(key: Seq<u8>, data: Seq<u8>) -> Seq<u8>;

/// Computes HMAC-SHA256 with `Hmac::<Sha256>::new_from_slice` (which accepts
/// keys of any length), `update` and `finalize`. The tag is left to the name
/// `hmac_sha256`; its length is SHA-256's output size.
#[verifier::external_body]
pub(crate) fn hmac_sha256_tag(key: &[u8], data: &[u8]) -> (tag: Vec<u8>)
    ensures
        tag@ == hmac_sha256(key@, data@),
        tag@.len() == 32,
{
    let mut mac = Hmac::<Sha256>::new_from_slice(key).expect("HMAC accepts any key length");
    mac.update(data);
    mac.finalize().into_bytes().to_vec()
}

/// Checks a tag with `Mac::verify_slice`, which accepts exactly the tag of
/// full length equal to the computed one.
#[verifier::external_body]
pub(crate) fn hmac_sha256_check(key: &[u8], data: &[u8], tag: &[u8]) -> (ok: bool)
    ensures
        ok == (tag@ == hmac_sha256(key@, data@)),
{
    let mut mac = match Hmac::<Sha256>::new_from_slice(key) {
        Ok(m) => m,
        Err(_) => return false,
    };
    mac.update(data);
    mac.verify_slice(tag).is_ok()
}

} // verus!
