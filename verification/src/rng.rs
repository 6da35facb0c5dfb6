//! The seedable source of coin flips: the standard generator of `rand`.
//!
//! A generator is opaque to the verifier. What can be said of it is said
//! over the flips that it will yield: [`pending_flip`] names them one by
//! one, and the two functions at the end of this file, whose contracts are
//! taken on trust, say how seeding and drawing act on them.

use rand::rngs::StdRng;
use rand::{Rng, SeedableRng};
use vstd::prelude::*;

verus! {

/// `rand::rngs::StdRng`, carried through verified code as an opaque value.
#[verifier::external_type_specification]
#[verifier::external_body]
pub struct ExStdRng(StdRng);

/// What a generator holds: the flip that its `ahead`-th next draw yields,
/// counting from 0, as long as nothing but flips is drawn from it.
pub uninterp spec fn pending_flip(rng: StdRng, ahead: nat) -> bool;

/// The `index`-th flip, counting from 0, of the stream that a generator
/// seeded with `seed` yields.
pub uninterp spec fn seeded_flip(seed: u64, index: nat) -> bool;

/// The next `count` flips that a generator holds, in the order of drawing.
pub open spec fn pending_flips(rng: StdRng, count: nat) -> Seq<bool> {
    Seq::new(count, |i: int| pending_flip(rng, i as nat))
}

/// `StdRng::seed_from_u64`: the generator that `seed` determines.
///
/// Taken on trust: the seed alone fixes every flip that the new generator
/// will yield. The generator is a ChaCha stream cipher keyed from the seed,
/// with no input from the clock, the machine or the process.
#[verifier::external_body]
pub(crate) fn seeded(seed: u64) -> (rng: StdRng)
    ensures
        forall|i: nat| #[trigger] pending_flip(rng, i) == seeded_flip(seed, i),
{
    StdRng::seed_from_u64(seed)
}

/// `Rng::gen::<bool>` on a `StdRng`: draws one flip.
///
/// Taken on trust: the flip drawn is the first of those that the generator
/// held, and those behind it move up by one place. The draw takes the next
/// 32-bit word of the stream and tests its top bit, and does not fail.
#[verifier::external_body]
pub(crate) fn flip(rng: &mut StdRng) -> (heads: bool)
    ensures
        heads == pending_flip(*old(rng), 0),
        forall|i: nat| #[trigger] pending_flip(*final(rng), i) == pending_flip(*old(rng), i + 1),
{
    rng.gen()
}

} // verus!
