use flate2::read::GzDecoder;
use flate2::write::GzEncoder;
use flate2::Compression;
use std::io::{Read, Write};
use vstd::prelude::*;

verus! {

/// Payloads from this size on are worth compressing.
pub const COMPRESS_THRESHOLD: usize = 1024;

/// The gzip stream flate2 writes for `data` at `Compression::fast()`.
pub uninterp spec fn gzip_fast(data: Seq<u8>) -> Seq<u8>;

/// What flate2's `GzDecoder` reads out of `data`, or `None` when it fails.
pub uninterp spec fn gunzip(data: Seq<u8>) -> Option<Seq<u8>>;

/// Whether a payload is at least the compression threshold.
pub fn should_compress(data: &[u8]) -> (r: bool)
    ensures
        r == (data@.len() >= COMPRESS_THRESHOLD),
{
    data.len() >= COMPRESS_THRESHOLD
}

/// Compresses with flate2's `GzEncoder` at `Compression::fast()` into a
/// `Vec` (writing into a `Vec` cannot fail). The stream is left to the name
/// `gzip_fast`.
#[verifier::external_body]
pub fn compress(data: &[u8]) -> (out: Vec<u8>)
    ensures
        out@ == gzip_fast(data@),
{
    let mut encoder = GzEncoder::new(Vec::new(), Compression::fast());
    encoder.write_all(data).expect("gzip write");
    encoder.finish().expect("gzip finish")
}

/// Decompresses with flate2's `GzDecoder` (`read_to_end`). What it reads is
/// left to the name `gunzip`; the stream that `compress` wrote reads back as
/// the bytes it compressed, since gzip is lossless.
#[verifier::external_body]
pub fn decompress(data: &[u8]) -> (r: std::io::Result<Vec<u8>>)
    ensures
        r is Ok <==> gunzip(data@) is Some,
        r matches Ok(v) ==> gunzip(data@) == Some(v@),
        r is Err ==> forall|plain: Seq<u8>| #[trigger] gzip_fast(plain) != data@,
        r matches Ok(v) ==> forall|plain: Seq<u8>| #[trigger] gzip_fast(plain) == data@ ==> v@ == plain,
{
    let mut decoder = GzDecoder::new(data);
    let mut out = Vec::new();
    decoder.read_to_end(&mut out)?;
    Ok(out)
}

} // verus!
