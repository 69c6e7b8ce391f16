//! Random choices, made by the `rand` crate.

use vstd::prelude::*;
use rand::seq::SliceRandom;

verus! {

/// The sum of the weights of `entries`.
pub open spec fn weight_sum(entries: Seq<(usize, u32)>) -> int
    decreases entries.len(),
{
    if entries.len() == 0 {
        0
    } else {
        weight_sum(entries.drop_last()) + entries.last().1
    }
}

/// Picks one of `entries` at random, each with a chance proportional to
/// its weight, by `rand::seq::SliceRandom::choose_weighted` (version 0.8)
/// with the thread-local generator. The contract claims what holds of every
/// outcome: an entry that is picked is one of `entries` and has a positive
/// weight; nothing is picked exactly when no entry has a positive weight
/// (`choose_weighted` fails with `NoItem` or `AllWeightsZero`). Which entry
/// comes out rests on chance and is not stated. The weights are added up in
/// a `u32`, so their sum must fit in one.
#[verifier::external_body]
pub(crate) fn choose_weighted_entry(entries: &Vec<(usize, u32)>) -> (r: Option<(usize, u32)>)
    requires
        weight_sum(entries@) <= u32::MAX,
    ensures
        match r {
            Some(e) => exists|i: int| 0 <= i < entries@.len() && entries@[i] == e && e.1 > 0,
            None => forall|i: int| 0 <= i < entries@.len() ==> entries@[i].1 == 0,
        },
{
    entries.choose_weighted(&mut rand::thread_rng(), |e| e.1).ok().copied()
}

/// Picks one of `items` at random, each with the same chance, by
/// `rand::seq::SliceRandom::choose` (version 0.8) with the thread-local
/// generator. The contract claims what holds of every outcome: nothing is
/// picked exactly when `items` is empty, and what is picked is the index of
/// one of them. Which one comes out rests on chance and is not stated.
#[verifier::external_body]
pub(crate) fn choose_index(items: &Vec<usize>) -> (r: Option<usize>)
    ensures
        match r {
            Some(x) => exists|i: int| 0 <= i < items@.len() && items@[i] == x,
            None => items@.len() == 0,
        },
{
    items.choose(&mut rand::thread_rng()).copied()
}

} // verus!
