//! The source of random lengths and bytes.
//!
//! The generator itself comes from the `rand` crate and is opaque here: what
//! it returns is not predicted, only bounded. Three functions of this module
//! are taken on trust, each a single call into `rand`.

use vstd::prelude::*;

verus! {

#[verifier::external_type_specification]
#[verifier::external_body]
pub struct ExStdRng(rand::rngs::StdRng);

/// `rand::SeedableRng::seed_from_u64` for `rand::rngs::StdRng`: expands the
/// seed and builds a generator from it. Nothing is claimed of the generator.
#[verifier::external_body]
fn seeded_generator(seed: u64) -> rand::rngs::StdRng {
    rand::SeedableRng::seed_from_u64(seed)
}

/// `rand::Rng::gen_range` on an inclusive range of `usize`. The call panics
/// on an empty range, which the precondition excludes. Claimed: the number
/// drawn lies in the range, both ends included.
#[verifier::external_body]
fn draw_between(generator: &mut rand::rngs::StdRng, low: usize, high: usize) -> (drawn: usize)
    requires
        low <= high,
    ensures
        low <= drawn <= high,
{
    rand::Rng::gen_range(generator, low..=high)
}

/// `rand::Rng::gen` for `u8`. Nothing is claimed of the byte.
#[verifier::external_body]
fn draw_byte(generator: &mut rand::rngs::StdRng) -> u8 {
    rand::Rng::gen::<u8>(generator)
}

/// A stream of random numbers that starts from a seed. Equal seeds give
/// equal streams, so a run can be repeated.
pub struct RandomSource {
    generator: rand::rngs::StdRng,
}

impl RandomSource {
    /// A source that starts from `seed`.
    pub fn from_seed(seed: u64) -> Self {
        RandomSource { generator: seeded_generator(seed) }
    }

    /// A number between `low` and `high`, both included.
    pub fn next_between(&mut self, low: usize, high: usize) -> (drawn: usize)
        requires
            low <= high,
        ensures
            low <= drawn <= high,
    {
        draw_between(&mut self.generator, low, high)
    }

    /// One byte.
    pub fn next_byte(&mut self) -> u8 {
        draw_byte(&mut self.generator)
    }

    /// `len` bytes.
    pub fn next_bytes(&mut self, len: usize) -> (bytes: Vec<u8>)
        ensures
            bytes@.len() == len,
    {
        let mut bytes: Vec<u8> = Vec::new();
        let mut done: usize = 0;
        while done < len
            invariant
                done <= len,
                bytes@.len() == done,
            decreases len - done,
        {
            bytes.push(self.next_byte());
            done = done + 1;
        }
        bytes
    }
}

} // verus!
