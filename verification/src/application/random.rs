//! Random draws used by the command handlers.
//!
//! The generator is `rand_chacha::ChaCha8Rng`; every draw goes through one of
//! the functions below, which state what holds of every outcome.

use crate::domain::{UNIT, WEIGHT_UNIT};
use rand::seq::SliceRandom;
use rand::Rng;
use rand_chacha::ChaCha8Rng;
use vstd::prelude::*;

verus! {

/// `rand_chacha::ChaCha8Rng`, the random number generator of the handlers.
#[verifier::external_type_specification]
#[verifier::external_body]
pub struct ExChaCha8Rng(ChaCha8Rng);

/// Picks one element with `rand::seq::SliceRandom::choose`: `None` for an
/// empty list, otherwise some element of the list.
#[verifier::external_body]
pub(crate) fn pick<T: Copy>(rng: &mut ChaCha8Rng, items: &Vec<T>) -> (picked: Option<T>)
    ensures
        picked is None <==> items@.len() == 0,
        picked matches Some(x) ==> items@.contains(x),
{
    items.choose(rng).copied()
}

/// Draws an integer with `rand::Rng::gen_range` from the inclusive range
/// `0 ..= high`, which is never empty.
#[verifier::external_body]
pub(crate) fn uniform_up_to(rng: &mut ChaCha8Rng, high: u64) -> (drawn: u64)
    ensures
        drawn <= high,
{
    rng.gen_range(0..=high)
}

/// Shuffles in place with `rand::seq::SliceRandom::shuffle`, which only swaps
/// elements: the list afterwards is a permutation of the list before.
#[verifier::external_body]
pub(crate) fn shuffle(rng: &mut ChaCha8Rng, items: &mut Vec<u128>)
    ensures
        final(items)@.to_multiset() == old(items)@.to_multiset(),
{
    items.shuffle(rng)
}

/// Draws a boolean with `rand::Rng::gen_ratio`, which panics unless
/// `0 < denominator` and `numerator <= denominator`. The outcome is certain
/// only at the two ends of the scale.
#[verifier::external_body]
pub(crate) fn flip(rng: &mut ChaCha8Rng, numerator: u32, denominator: u32) -> (heads: bool)
    requires
        0 < denominator,
        numerator <= denominator,
    ensures
        numerator == denominator ==> heads,
        numerator == 0 ==> !heads,
{
    rng.gen_ratio(numerator, denominator)
}

/// Draws a weight uniformly from `-1.0 ..= 1.0`, in fixed-point units.
pub(crate) fn unit_weight(rng: &mut ChaCha8Rng) -> (weight: i64)
    ensures
        -WEIGHT_UNIT <= weight <= WEIGHT_UNIT,
{
    let span: u64 = 2 * UNIT;
    let drawn = uniform_up_to(rng, span);
    (drawn as i64) - WEIGHT_UNIT
}

/// If `b` is a permutation of `a` and `a` has no duplicates, neither has `b`,
/// and both hold the same elements.
pub(crate) proof fn lemma_permutation_of_distinct(a: Seq<u128>, b: Seq<u128>)
    requires
        a.to_multiset() == b.to_multiset(),
        a.no_duplicates(),
    ensures
        b.no_duplicates(),
        a.len() == b.len(),
        forall|x: u128| a.contains(x) <==> b.contains(x),
{
    a.lemma_multiset_has_no_duplicates();
    b.lemma_multiset_has_no_duplicates_conv();
    vstd::seq_lib::to_multiset_len(a);
    vstd::seq_lib::to_multiset_len(b);
    assert forall|x: u128| a.contains(x) <==> b.contains(x) by {
        vstd::seq_lib::to_multiset_contains(a, x);
        vstd::seq_lib::to_multiset_contains(b, x);
    }
}

} // verus!
