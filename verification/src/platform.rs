//! What the agent takes from the machine: the clock and random bytes.
use rand::RngCore;
use vstd::prelude::*;

verus! {

/// `std::io::Error`, carried through as an opaque value.
#[verifier::external_type_specification]
#[verifier::external_body]
pub struct ExIoError(std::io::Error);

/// Milliseconds since the Unix epoch, read from `std::time::SystemTime::now`
/// (0 when the clock is before the epoch). Nothing is stated of the value:
/// it is whatever the clock shows.
#[verifier::external_body]
pub(crate) fn now_ms() -> (ms: i64) {
    std::time::SystemTime::now()
        .duration_since(std::time::UNIX_EPOCH)
        .unwrap_or_default()
        .as_millis() as i64
}

/// `n` bytes from the operating system's random source, through
/// `rand::RngCore::fill_bytes` on `rand::rngs::OsRng` (which panics if the
/// source fails). Only the length is stated.
#[verifier::external_body]
pub(crate) fn random_bytes(n: usize) -> (out: Vec<u8>)
    ensures
        out@.len() == n,
{
    let mut buf = vec![0u8; n];
    rand::rngs::OsRng.fill_bytes(&mut buf);
    buf
}

} // verus!
