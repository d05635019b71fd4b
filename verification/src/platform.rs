//! The three sources of values that are not a function of the program's
//! inputs: the thread-local random generator, the UUID generator and the
//! wall clock. Each is a thin trusted call; everything that uses what they
//! return is verified for every value they may hand back.

use vstd::prelude::*;
use rand::Rng;

verus! {

/// Calls `rand::random::<u64>()`. The result is drawn from the thread-local
/// generator, so nothing is claimed of its value.
#[verifier::external_body]
pub(crate) fn random_u64() -> u64 {
    rand::random::<u64>()
}

/// Calls `rand::Rng::fill` on the thread-local generator, overwriting every
/// byte of `buffer`. The only claim is that the length stays the same.
#[verifier::external_body]
pub(crate) fn fill_random(buffer: &mut Vec<u8>)
    ensures
        final(buffer).len() == old(buffer).len(),
{
    rand::thread_rng().fill(&mut buffer[..]);
}

/// Calls `uuid::Uuid::new_v4()` and hands out its 16 bytes. A version 4
/// identifier is random except for the version nibble (the high half of
/// byte 6 is 4) and the variant bits (the top two bits of byte 8 are `10`),
/// which is all that is claimed here.
#[verifier::external_body]
pub(crate) fn uuid_v4_bytes() -> (bytes: [u8; 16])
    ensures
        0x40 <= bytes[6] <= 0x4f,
        0x80 <= bytes[8] <= 0xbf,
{
    *uuid::Uuid::new_v4().as_bytes()
}

/// Reads `std::time::SystemTime::now()` as whole seconds since the Unix
/// epoch. A clock set before the epoch reads as 0. Nothing is claimed of the
/// value: two reads may differ in either direction.
#[verifier::external_body]
pub(crate) fn unix_seconds() -> u64 {
    std::time::SystemTime::now().duration_since(std::time::UNIX_EPOCH).map_or(0, |d| d.as_secs())
}

} // verus!
