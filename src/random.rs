//! Randomness drawn from the thread-local generator of `rand`.
use rand::Rng;
use vstd::prelude::*;

verus! {

/// `n` random bytes.
/// Relies on `rand::Rng::fill` over `rand::thread_rng()`: it overwrites every
/// byte of the buffer, whose length it leaves as it is.
#[verifier::external_body]
pub(crate) fn random_bytes(n: usize) -> (r: Vec<u8>)
    ensures
        r@.len() == n,
{
    let mut buf = vec![0u8; n];
    rand::thread_rng().fill(&mut buf[..]);
    buf
}

/// A random integer in `lo..=hi`.
/// Relies on `rand::Rng::gen_range` over `rand::thread_rng()`: the value lies
/// in the inclusive range, which must not be empty (it panics on `lo > hi`).
#[verifier::external_body]
pub(crate) fn random_in_range(lo: u32, hi: u32) -> (r: u32)
    requires
        lo <= hi,
    ensures
        lo <= r <= hi,
{
    rand::thread_rng().gen_range(lo..=hi)
}

} // verus!
