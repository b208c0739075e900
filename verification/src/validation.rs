//! What a valid identity number is, and the checks that decide it.

use crate::checksum::{eleventh_digit, generate_eleventh, generate_tenth, sum, tenth_digit};
use crate::digits::{
    all_digits, digit_value, digits_of, is_digit, is_digit_byte, lemma_digit_bytes, parse_digits,
    NINE, ZERO,
};
use vstd::prelude::*;
use vstd::string::*;
use vstd::utf8::*;

verus! {

/// The digits at the first, third, fifth, seventh and ninth place.
pub open spec fn odd_places(digits: Seq<u16>) -> Seq<u16> {
    seq![digits[0], digits[2], digits[4], digits[6], digits[8]]
}

/// The digits at the second, fourth, sixth and eighth place.
pub open spec fn even_places(digits: Seq<u16>) -> Seq<u16> {
    seq![digits[1], digits[3], digits[5], digits[7]]
}

/// Whether the tenth digit of `s` is the one that its first nine digits call
/// for. It is meant for eleven digits.
pub open spec fn tenth_digit_matches(s: Seq<char>) -> bool {
    let digits = digits_of(s);
    digits[9] == tenth_digit(odd_places(digits), even_places(digits))
}

/// Whether the eleventh digit of `s` is the one that its first ten digits
/// call for. It is meant for eleven digits.
pub open spec fn eleventh_digit_matches(s: Seq<char>) -> bool {
    let digits = digits_of(s);
    digits[10] == eleventh_digit(odd_places(digits), even_places(digits).push(digits[9]))
}

/// Whether `s` is a valid identity number: eleven decimal digits, the first
/// of them not zero, the tenth and the eleventh being the check digits of
/// those before them.
pub open spec fn is_tckn(s: Seq<char>) -> bool {
    &&& s.len() == 11
    &&& all_digits(s)
    &&& s[0] != '0'
    &&& tenth_digit_matches(s)
    &&& eleventh_digit_matches(s)
}

/// The number that stands at place `i` of `s`, the places counted from zero.
pub open spec fn digit_at(s: Seq<char>, i: int) -> int {
    digit_value(s[i])
}

/// For eleven digits, [`is_tckn`] spelled out digit by digit: the first digit
/// is not zero, the tenth is seven times the sum of the digits at the odd
/// places, less the sum of those at the even places, modulo ten, and the
/// eleventh is the sum of the first ten modulo ten.
pub proof fn lemma_is_tckn_digit_by_digit(s: Seq<char>)
    requires
        s.len() == 11,
        all_digits(s),
    ensures
        is_tckn(s) <==> {
            &&& digit_at(s, 0) != 0
            &&& digit_at(s, 9) == ((digit_at(s, 0) + digit_at(s, 2) + digit_at(s, 4) + digit_at(
                s,
                6,
            ) + digit_at(s, 8)) * 7 - (digit_at(s, 1) + digit_at(s, 3) + digit_at(s, 5)
                + digit_at(s, 7))) % 10
            &&& digit_at(s, 10) == (digit_at(s, 0) + digit_at(s, 1) + digit_at(s, 2) + digit_at(
                s,
                3,
            ) + digit_at(s, 4) + digit_at(s, 5) + digit_at(s, 6) + digit_at(s, 7) + digit_at(
                s,
                8,
            ) + digit_at(s, 9)) % 10
        },
{
    reveal_with_fuel(sum, 6);
    let digits = digits_of(s);
    assert forall|i: int| 0 <= i < 11 implies #[trigger] digits[i] == digit_at(s, i) by {
        assert(is_digit(s[i]));
    }
    assert(is_digit(s[0]));
}

/// Tells whether `tckn` holds anything but ASCII decimal digits.
pub fn contains_non_digital(tckn: &str) -> (found: bool)
    ensures
        found == !all_digits(tckn@),
{
    let bytes = tckn.as_bytes();
    let mut i: usize = 0;
    while i < bytes.len()
        invariant
            bytes@ == encode_utf8(tckn@),
            i <= bytes@.len(),
            forall|k: int| 0 <= k < i ==> ZERO <= #[trigger] bytes@[k] <= NINE,
        decreases bytes@.len() - i,
    {
        if !is_digit_byte(bytes[i]) {
            proof {
                lemma_digit_bytes(tckn@);
            }
            return true;
        }
        i = i + 1;
    }
    proof {
        lemma_digit_bytes(tckn@);
    }
    false
}

/// Takes `count` digits out of `digits`, every second one from place `from`
/// on.
fn every_second(digits: &Vec<u16>, from: usize, count: usize) -> (taken: Vec<u16>)
    requires
        from + 2 * count <= digits@.len() + 1,
    ensures
        taken@ == Seq::new(count as nat, |k: int| digits@[from + 2 * k]),
{
    let len: usize = digits.len();
    let mut taken: Vec<u16> = Vec::new();
    let mut k: usize = 0;
    while k < count
        invariant
            len == digits@.len(),
            from + 2 * count <= len + 1,
            k <= count,
            taken@.len() == k,
            forall|j: int| 0 <= j < k ==> #[trigger] taken@[j] == digits@[from + 2 * j],
        decreases count - k,
    {
        taken.push(digits[from + 2 * k]);
        k = k + 1;
    }
    assert(taken@ =~= Seq::new(count as nat, |k: int| digits@[from + 2 * k]));
    taken
}

/// Recomputes the tenth digit of `tckn` from its first nine digits and
/// compares it with the digit that stands at the tenth place.
pub fn tenth_digit_check(tckn: &str) -> (matches: bool)
    requires
        tckn@.len() == 11,
        all_digits(tckn@),
    ensures
        matches == tenth_digit_matches(tckn@),
{
    let digits = parse_digits(tckn);
    let odds = every_second(&digits, 0, 5);
    let evens = every_second(&digits, 1, 4);
    proof {
        assert(odds@ =~= odd_places(digits@));
        assert(evens@ =~= even_places(digits@));
    }
    generate_tenth(&odds, &evens) == digits[9]
}

/// Recomputes the eleventh digit of `tckn` from its first ten digits and
/// compares it with the digit that stands at the eleventh place.
pub fn eleventh_digit_check(tckn: &str) -> (matches: bool)
    requires
        tckn@.len() == 11,
        all_digits(tckn@),
    ensures
        matches == eleventh_digit_matches(tckn@),
{
    let digits = parse_digits(tckn);
    let odds = every_second(&digits, 0, 5);
    let evens = every_second(&digits, 1, 5);
    proof {
        assert(odds@ =~= odd_places(digits@));
        assert(evens@ =~= even_places(digits@).push(digits@[9]));
    }
    generate_eleventh(&odds, &evens) == digits[10]
}

/// Decides whether `tckn` is a valid identity number.
///
/// The answer is `true` exactly for the strings that [`is_tckn`] describes.
/// In particular it is `false` for every string that is not eleven
/// characters (or not eleven bytes) long, for every string that holds a
/// character other than a decimal digit, and for every string that starts
/// with a zero.
pub fn validate(tckn: &str) -> (valid: bool)
    ensures
        valid == is_tckn(tckn@),
        tckn@.len() != 11 ==> !valid,
        tckn.spec_bytes().len() != 11 ==> !valid,
        (exists|i: int| 0 <= i < tckn@.len() && !is_digit(tckn@[i])) ==> !valid,
        tckn@.len() > 0 && tckn@[0] == '0' ==> !valid,
{
    proof {
        lemma_digit_bytes(tckn@);
    }
    if tckn.len() != 11 {
        return false;
    }
    if contains_non_digital(tckn) {
        return false;
    }
    if tckn.as_bytes()[0] == ZERO {
        return false;
    }
    if !tenth_digit_check(tckn) {
        return false;
    }
    if !eleventh_digit_check(tckn) {
        return false;
    }
    true
}

} // verus!
