//! The digit-weighting rule that yields the two check digits.

use vstd::prelude::*;

verus! {

/// Whether every item of `digits` is a decimal digit, that is at most nine.
pub open spec fn are_digits(digits: Seq<u16>) -> bool {
    forall|i: int| 0 <= i < digits.len() ==> #[trigger] digits[i] <= 9
}

/// The sum of all items of `digits`.
pub open spec fn sum(digits: Seq<u16>) -> int
    decreases digits.len(),
{
    if digits.len() == 0 {
        0
    } else {
        sum(digits.drop_last()) + digits.last()
    }
}

/// The tenth digit that belongs to the digits at the odd places (first,
/// third, ... ninth) and at the even places (second, ... eighth): seven times
/// the odd sum, less the even sum, reduced modulo ten to a digit.
pub open spec fn tenth_digit(odds: Seq<u16>, evens: Seq<u16>) -> int {
    (sum(odds) * 7 - sum(evens)) % 10
}

/// The eleventh digit that belongs to the first ten digits, given as the
/// digits at the odd places and the digits at the even places with the tenth
/// digit as the last of them: their sum modulo ten.
pub open spec fn eleventh_digit(odds: Seq<u16>, evens: Seq<u16>) -> int {
    (sum(odds) + sum(evens)) % 10
}

/// The check digits depend on the digits alone: two runs of digits that
/// agree place by place have the same tenth digit and the same eleventh
/// digit.
pub proof fn lemma_check_digits_determined(
    odds: Seq<u16>,
    evens: Seq<u16>,
    same_odds: Seq<u16>,
    same_evens: Seq<u16>,
)
    requires
        odds.len() == same_odds.len(),
        evens.len() == same_evens.len(),
        forall|i: int| 0 <= i < odds.len() ==> odds[i] == same_odds[i],
        forall|i: int| 0 <= i < evens.len() ==> evens[i] == same_evens[i],
    ensures
        tenth_digit(odds, evens) == tenth_digit(same_odds, same_evens),
        eleventh_digit(odds, evens) == eleventh_digit(same_odds, same_evens),
{
    assert(odds =~= same_odds);
    assert(evens =~= same_evens);
}

/// The check digits are digits, whatever the sums are: also where the even
/// sum is the greater one, so that the difference is below zero.
pub proof fn lemma_check_digits_are_digits(odds: Seq<u16>, evens: Seq<u16>)
    ensures
        0 <= tenth_digit(odds, evens) <= 9,
        0 <= eleventh_digit(odds, evens) <= 9,
{
}

/// Adds up the digits of `digits`.
fn sum_digits(digits: &Vec<u16>) -> (total: u16)
    requires
        are_digits(digits@),
        digits@.len() <= 5,
    ensures
        total == sum(digits@),
        total <= 9 * digits@.len(),
{
    let mut total: u16 = 0;
    let mut i: usize = 0;
    while i < digits.len()
        invariant
            are_digits(digits@),
            digits@.len() <= 5,
            i <= digits@.len(),
            total == sum(digits@.take(i as int)),
            total <= 9 * i,
        decreases digits@.len() - i,
    {
        proof {
            assert(digits@.take(i + 1).drop_last() =~= digits@.take(i as int));
        }
        total = total + digits[i];
        i = i + 1;
    }
    proof {
        assert(digits@.take(i as int) =~= digits@);
    }
    total
}

/// Computes the tenth digit from the five digits at the odd places and the
/// four digits at the even places.
pub fn generate_tenth(odds: &Vec<u16>, evens: &Vec<u16>) -> (tenth: u16)
    requires
        odds@.len() == 5,
        evens@.len() == 4,
        are_digits(odds@),
        are_digits(evens@),
    ensures
        tenth == tenth_digit(odds@, evens@),
        tenth <= 9,
{
    let odds_sum_times_7: u16 = sum_digits(odds) * 7;
    let evens_sum: u16 = sum_digits(evens);
    // The even sum is at most 36, so adding 40 keeps the difference from
    // going below zero and leaves its residue modulo ten as it is.
    let diff: u16 = odds_sum_times_7 + 40 - evens_sum;
    diff % 10
}

/// Computes the eleventh digit from the five digits at the odd places and
/// the five digits at the even places, the tenth digit being the last of
/// them.
pub fn generate_eleventh(odds: &Vec<u16>, evens: &Vec<u16>) -> (eleventh: u16)
    requires
        odds@.len() == 5,
        evens@.len() == 5,
        are_digits(odds@),
        are_digits(evens@),
    ensures
        eleventh == eleventh_digit(odds@, evens@),
        eleventh <= 9,
{
    let odds_sum: u16 = sum_digits(odds);
    let evens_sum: u16 = sum_digits(evens);
    let total: u16 = odds_sum + evens_sum;
    total % 10
}

} // verus!
