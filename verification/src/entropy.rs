//! Operating-system randomness and wall-clock time.
use vstd::prelude::*;

verus! {

/// `getrandom::fill` on a fresh buffer of `n` bytes. The bytes are random, so
/// nothing is stated of them but their number; an error of the operating
/// system's generator is reported as `None`.
#[verifier::external_body]
pub(crate) fn random_bytes(n: usize) -> (r: Option<Vec<u8>>)
    ensures
        r matches Some(v) ==> v@.len() == n,
{
    let mut bytes = vec![0_u8; n];
    match getrandom::fill(&mut bytes) {
        Ok(()) => Some(bytes),
        Err(_) => None,
    }
}

/// Milliseconds since the Unix epoch (`SystemTime::now` and
/// `duration_since(UNIX_EPOCH)`); a clock set before the epoch reads as 0 and
/// one beyond `i64::MAX` milliseconds reads as `i64::MAX`. The time depends
/// on the machine, so nothing more is stated.
#[verifier::external_body]
pub(crate) fn now_millis() -> (r: i64)
    ensures
        r >= 0,
{
    let elapsed = std::time::SystemTime::now()
        .duration_since(std::time::UNIX_EPOCH)
        .unwrap_or_default();
    i64::try_from(elapsed.as_millis()).unwrap_or(i64::MAX)
}

} // verus!
