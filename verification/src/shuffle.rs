use rand::seq::SliceRandom;
use vstd::prelude::*;
use crate::tetro::Tetro;

verus! {

/// Puts the pieces in a random order: `rand`'s `SliceRandom::shuffle`
/// (a Fisher-Yates shuffle of swaps) driven by `rand::thread_rng()`.
/// Claimed of every outcome: the slice holds the same pieces, each as
/// often as before.  Which order comes out rests on chance and is not
/// stated.
#[verifier::external_body]
pub(crate) fn shuffle_tetros(tetros: &mut [Tetro])
    ensures
        final(tetros)@.to_multiset() == old(tetros)@.to_multiset(),
{
    tetros.shuffle(&mut rand::thread_rng());
}

} // verus!
