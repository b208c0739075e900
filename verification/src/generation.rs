//! Building an identity number from nine digits, and drawing those at random.

use crate::checksum::{are_digits, eleventh_digit, generate_eleventh, generate_tenth, tenth_digit};
use crate::digits::{
    all_digits, digit_char, digit_str, digit_value, digits_of, is_digit, lemma_digit_char,
    to_digit, to_digits,
};
use crate::random::{choose_char, choose_chars, drawn_from, places_of};
use crate::validation::{even_places, is_tckn, odd_places};
use vstd::prelude::*;
use vstd::string::*;

verus! {

/// The digits that the first place of an identity number may hold.
pub const NON_ZERO_DIGITS: &'static str = "123456789";

/// The digits that every other place may hold.
pub const ALL_DIGITS: &'static str = "0123456789";

/// The identity number that starts with the digit `first`, has `evens` at
/// its second, fourth, sixth and eighth place and `odds` at its third, fifth,
/// seventh and ninth place: those nine digits, followed by their two check
/// digits.
pub open spec fn assembled(first: u16, evens: Seq<u16>, odds: Seq<u16>) -> Seq<char> {
    let odds = seq![first] + odds;
    let tenth = tenth_digit(odds, evens) as u16;
    let evens = evens.push(tenth);
    let eleventh = eleventh_digit(odds, evens) as u16;
    seq![
        digit_char(odds[0]),
        digit_char(evens[0]),
        digit_char(odds[1]),
        digit_char(evens[1]),
        digit_char(odds[2]),
        digit_char(evens[2]),
        digit_char(odds[3]),
        digit_char(evens[3]),
        digit_char(odds[4]),
        digit_char(evens[4]),
        digit_char(eleventh),
    ]
}

/// Any nine digits of which the first is not zero, completed by their check
/// digits, make a valid identity number.
pub proof fn lemma_assembled_is_tckn(first: u16, evens: Seq<u16>, odds: Seq<u16>)
    requires
        1 <= first <= 9,
        evens.len() == 4,
        odds.len() == 4,
        are_digits(evens),
        are_digits(odds),
    ensures
        is_tckn(assembled(first, evens, odds)),
{
    let all_odds = seq![first] + odds;
    assert(are_digits(all_odds)) by {
        assert forall|i: int| 0 <= i < all_odds.len() implies #[trigger] all_odds[i] <= 9 by {
            if i > 0 {
                assert(all_odds[i] == odds[i - 1]);
            }
        }
    }
    let tenth = tenth_digit(all_odds, evens) as u16;
    let all_evens = evens.push(tenth);
    let eleventh = eleventh_digit(all_odds, all_evens) as u16;
    let tckn = assembled(first, evens, odds);
    let digits = digits_of(tckn);
    assert forall|i: int| 0 <= i < 11 implies is_digit(#[trigger] tckn[i]) && digits[i]
        == digit_value(tckn[i]) by {
        if i == 10 {
            lemma_digit_char(eleventh);
        } else if i % 2 == 0 {
            lemma_digit_char(all_odds[i / 2]);
        } else {
            lemma_digit_char(all_evens[i / 2]);
        }
    }
    lemma_digit_char(first);
    assert(odd_places(digits) =~= all_odds);
    assert(even_places(digits) =~= evens);
    assert(even_places(digits).push(digits[9]) =~= all_evens);
}

/// Every valid identity number is its own first nine digits, completed by
/// their check digits: what [`is_tckn`] holds of is what [`assemble`] can
/// give.
pub proof fn lemma_tckn_is_assembled(tckn: Seq<char>)
    requires
        is_tckn(tckn),
    ensures
        ({
            let digits = digits_of(tckn);
            let odds = seq![digits[2], digits[4], digits[6], digits[8]];
            &&& 1 <= digits[0] <= 9
            &&& are_digits(even_places(digits))
            &&& are_digits(odds)
            &&& tckn == assembled(digits[0], even_places(digits), odds)
        }),
{
    let digits = digits_of(tckn);
    let odds = seq![digits[2], digits[4], digits[6], digits[8]];
    assert forall|i: int| 0 <= i < 11 implies #[trigger] digits[i] <= 9 && digit_char(digits[i])
        == tckn[i] by {
        assert(is_digit(tckn[i]));
    }
    assert(seq![digits[0]] + odds =~= odd_places(digits));
    assert(tckn =~= assembled(digits[0], even_places(digits), odds));
}

/// Completes nine digits to an identity number: `first` is its first digit,
/// `evens` are the digits at its second, fourth, sixth and eighth place, and
/// `odds` those at its third, fifth, seventh and ninth place. The two check
/// digits are computed and all eleven digits are written out in their order.
pub fn assemble(first: u16, evens: Vec<u16>, odds: Vec<u16>) -> (tckn: String)
    requires
        1 <= first <= 9,
        evens@.len() == 4,
        odds@.len() == 4,
        are_digits(evens@),
        are_digits(odds@),
    ensures
        tckn@ == assembled(first, evens@, odds@),
        is_tckn(tckn@),
{
    let ghost drawn_evens = evens@;
    let ghost drawn_odds = odds@;
    let mut evens = evens;
    let mut odds = odds;

    odds.insert(0, first);
    assert(odds@ =~= seq![first] + drawn_odds);
    let tenth: u16 = generate_tenth(&odds, &evens);
    evens.push(tenth);
    let eleventh: u16 = generate_eleventh(&odds, &evens);

    let mut tckn = String::new();
    let mut i: usize = 0;
    while i < 5
        invariant
            i <= 5,
            odds@.len() == 5,
            evens@.len() == 5,
            are_digits(odds@),
            are_digits(evens@),
            tckn@.len() == 2 * i,
            forall|k: int|
                0 <= k < 2 * i ==> #[trigger] tckn@[k] == digit_char(
                    if k % 2 == 0 {
                        odds@[k / 2]
                    } else {
                        evens@[k / 2]
                    },
                ),
        decreases 5 - i,
    {
        tckn.append(digit_str(odds[i]));
        tckn.append(digit_str(evens[i]));
        i = i + 1;
    }
    tckn.append(digit_str(eleventh));
    proof {
        assert(tckn@ =~= assembled(first, drawn_evens, drawn_odds));
        lemma_assembled_is_tckn(first, drawn_evens, drawn_odds);
    }
    tckn
}

/// Draws a valid identity number at random.
///
/// The first digit is drawn from the digits one to nine, four digits for the
/// even places and four for the remaining odd places from the digits zero to
/// nine, and [`assemble`] adds the check digits. Whatever is drawn, the
/// result is a number that [`crate::validation::validate`] accepts.
pub fn generate() -> (tckn: String)
    ensures
        is_tckn(tckn@),
{
    let mut rng = rand::thread_rng();
    let first_char = choose_char(NON_ZERO_DIGITS, &mut rng);
    let even_chars = choose_chars(ALL_DIGITS, &mut rng, 4);
    let odd_chars = choose_chars(ALL_DIGITS, &mut rng, 4);
    proof {
        reveal_strlit("123456789");
        reveal_strlit("0123456789");
        lemma_drawn_digits(even_chars@);
        lemma_drawn_digits(odd_chars@);
    }
    let first: u16 = to_digit(first_char.unwrap());
    let evens = to_digits(&even_chars);
    let odds = to_digits(&odd_chars);
    assemble(first, evens, odds)
}

/// What is drawn from the ten digits is made of digits.
proof fn lemma_drawn_digits(picked: Seq<char>)
    requires
        drawn_from(picked, ALL_DIGITS@),
    ensures
        all_digits(picked),
{
    reveal_strlit("0123456789");
    let at = choose|at: Seq<int>| places_of(at, picked, ALL_DIGITS@);
    assert forall|i: int| 0 <= i < picked.len() implies is_digit(#[trigger] picked[i]) by {
        assert(picked[i] == ALL_DIGITS@[at[i]]);
    }
}

} // verus!
