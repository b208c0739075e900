//! Random draws from a population of characters, made by the `rand` crate.
//!
//! Nothing in this file is proved: the contracts say what the `rand` crate
//! documents of its functions, and the rest of the library builds on them.

use rand::rngs::ThreadRng;
use rand::seq::IteratorRandom;
use vstd::prelude::*;

verus! {

/// `rand::rngs::ThreadRng`, the handle of the generator that each thread
/// owns. Nothing is known of what it holds.
#[verifier::external_type_specification]
#[verifier::external_body]
pub struct ExThreadRng(rand::rngs::ThreadRng);

/// `rand::thread_rng` hands out the generator of the running thread, which
/// the operating system seeds. Nothing is claimed of the generator. Where the
/// operating system can give no seed, the function panics.
pub assume_specification[ rand::thread_rng ]() -> (rng: ThreadRng);

/// Whether `at` names, for each item of `picked` in turn, a place in
/// `population` where that item stands, no place being named twice.
pub open spec fn places_of(at: Seq<int>, picked: Seq<char>, population: Seq<char>) -> bool {
    &&& at.len() == picked.len()
    &&& forall|i: int|
        0 <= i < at.len() ==> 0 <= #[trigger] at[i] < population.len() && population[at[i]]
            == picked[i]
    &&& forall|i: int, j: int| 0 <= i < j < at.len() ==> at[i] != at[j]
}

/// Whether `picked` can come out of a draw without replacement from
/// `population`: each of its items is taken from a place of its own.
pub open spec fn drawn_from(picked: Seq<char>, population: Seq<char>) -> bool {
    exists|at: Seq<int>| places_of(at, picked, population)
}

/// Draws one character of `population` with `IteratorRandom::choose` of the
/// `rand` crate. As that method documents, the draw gives nothing exactly
/// when there is nothing to draw from; what it gives is one of the
/// characters of `population`. Which one is left open.
#[verifier::external_body]
pub(crate) fn choose_char(population: &str, rng: &mut ThreadRng) -> (picked: Option<char>)
    ensures
        picked is None <==> population@.len() == 0,
        picked matches Some(c) ==> population@.contains(c),
{
    population.chars().choose(rng)
}

/// Draws `amount` characters of `population` with
/// `IteratorRandom::choose_multiple` of the `rand` crate. As that method
/// documents, it gives `amount` characters, or all of them where
/// `population` has fewer. It starts from the first `amount` characters and
/// lets each later one take the place of one drawn so far or none, so each
/// character that it gives comes from a place of its own in `population`.
/// Which places, and in what order, is left open. The bound on `amount` keeps
/// the buffer that the method allocates at once within what a vector may
/// hold.
#[verifier::external_body]
pub(crate) fn choose_chars(population: &str, rng: &mut ThreadRng, amount: usize) -> (picked: Vec<
    char,
>)
    requires
        amount <= u16::MAX,
    ensures
        picked@.len() == if amount <= population@.len() {
            amount as nat
        } else {
            population@.len()
        },
        drawn_from(picked@, population@),
{
    population.chars().choose_multiple(rng, amount)
}

} // verus!
