use vstd::prelude::*;
use rand::Rng;

verus! {

/// A supplier of the random bytes that the `Cxkk` instruction consumes.
///
/// Nothing is assumed of the bytes, so any implementation will do: a real
/// generator, or a fixed sequence that makes a run repeatable.
pub trait RandomSource {
    /// The next byte, ideally drawn uniformly from `0..=255`.
    fn next_byte(&mut self) -> u8;
}

/// The random source backed by the thread-local generator of the `rand` crate.
pub struct ThreadRandom;

impl RandomSource for ThreadRandom {
    fn next_byte(&mut self) -> u8 {
        thread_random_byte()
    }
}

/// Calls `rand::thread_rng()` and `Rng::gen_range` on the range `0..256`,
/// which is not empty, and keeps the low eight bits of the number drawn.
/// Nothing is claimed of the byte: it differs from call to call.
#[verifier::external_body]
fn thread_random_byte() -> (byte: u8) {
    rand::thread_rng().gen_range(0..256) as u8
}

} // verus!
