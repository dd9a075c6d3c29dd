use base64::engine::general_purpose::STANDARD;
use base64::Engine;
use vstd::prelude::*;

use super::mac::{hmac_sha256, hmac_sha256_check, hmac_sha256_tag};

verus! {

/// The standard (RFC 4648, padded) Base64 text of a byte sequence.
pub uninterp spec fn base64_standard(bytes: Seq<u8>) -> Seq<char>;

/// Encodes with `base64::engine::general_purpose::STANDARD`; the text is left
/// to the name `base64_standard`.
#[verifier::external_body]
fn base64_encode(bytes: &[u8]) -> (out: String)
    ensures
        out@ == base64_standard(bytes@),
{
    STANDARD.encode(bytes)
}

/// Signs payloads with HMAC-SHA256 under a shared secret.
pub struct HmacSigner {
    secret: Vec<u8>,
}

impl HmacSigner {
    /// The secret the signer uses.
    pub closed spec fn key(&self) -> Seq<u8> {
        self.secret@
    }

    /// A signer with a copy of `secret`.
    pub fn new(secret: &[u8]) -> (s: HmacSigner)
        ensures
            s.key() == secret@,
    {
        let mut v: Vec<u8> = Vec::new();
        let mut i: usize = 0;
        while i < secret.len()
            invariant
                i <= secret@.len(),
                v@ == secret@.subrange(0, i as int),
            decreases secret@.len() - i,
        {
            v.push(secret[i]);
            i = i + 1;
            assert(v@ =~= secret@.subrange(0, i as int));
        }
        assert(secret@.subrange(0, i as int) =~= secret@);
        HmacSigner { secret: v }
    }

    /// The 32-byte HMAC-SHA256 tag of `data`.
    pub fn sign(&self, data: &[u8]) -> (sig: Vec<u8>)
        ensures
            sig@ == hmac_sha256(self.key(), data@),
            sig@.len() == 32,
    {
        hmac_sha256_tag(self.secret.as_slice(), data)
    }

    /// The tag of `data` in standard Base64.
    pub fn sign_base64(&self, data: &[u8]) -> (out: String)
        ensures
            out@ == base64_standard(hmac_sha256(self.key(), data@)),
    {
        let sig = self.sign(data);
        base64_encode(sig.as_slice())
    }

    /// Whether `signature` is the tag of `data`.
    pub fn verify(&self, data: &[u8], signature: &[u8]) -> (ok: bool)
        ensures
            ok == (signature@ == hmac_sha256(self.key(), data@)),
    {
        hmac_sha256_check(self.secret.as_slice(), data, signature)
    }
}

} // verus!
