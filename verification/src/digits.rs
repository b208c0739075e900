//! Decimal digits as characters, as bytes and as numbers.

use crate::checksum::are_digits;
use vstd::prelude::*;
use vstd::string::*;
use vstd::utf8::*;

verus! {

/// The byte that writes the digit zero in ASCII.
pub const ZERO: u8 = 48;

/// The byte that writes the digit nine in ASCII.
pub const NINE: u8 = 57;

/// Whether `c` is one of the ASCII decimal digits `'0'` to `'9'`.
pub open spec fn is_digit(c: char) -> bool {
    '0' <= c && c <= '9'
}

/// The number that the decimal digit `c` stands for.
pub open spec fn digit_value(c: char) -> int {
    c as int - ZERO
}

/// Whether every character of `s` is an ASCII decimal digit.
pub open spec fn all_digits(s: Seq<char>) -> bool {
    forall|i: int| 0 <= i < s.len() ==> is_digit(#[trigger] s[i])
}

/// The digits of `s` as numbers, in the order of the characters.
pub open spec fn digits_of(s: Seq<char>) -> Seq<u16> {
    Seq::new(s.len(), |i: int| digit_value(s[i]) as u16)
}

/// Casting a character to `u32` keeps its code.
proof fn lemma_char_code(c: char)
    ensures
        c as u32 as int == c as int,
{
}

/// A character sequence whose UTF-8 bytes are all below 0x80 holds ASCII
/// characters only.
proof fn lemma_ascii_bytes_ascii_chars(chars: Seq<char>)
    requires
        forall|k: int|
            0 <= k < encode_utf8(chars).len() ==> #[trigger] encode_utf8(chars)[k] <= 0x7f,
    ensures
        is_ascii_chars(chars),
    decreases chars.len(),
{
    if chars.len() > 0 {
        let c = chars[0] as u32;
        let head = encode_scalar(c);
        let rest = chars.drop_first();
        let bytes = encode_utf8(chars);
        assert(bytes == head + encode_utf8(rest));
        assert(bytes[0] == head[0]);
        if !has_width_1_encoding(c) {
            let b = head[0];
            assert(forall|x: u8| 0xC0u8 | x >= 0xC0) by (bit_vector);
            assert(forall|x: u8| 0xE0u8 | x >= 0xE0) by (bit_vector);
            assert(forall|x: u8| 0xF0u8 | x >= 0xF0) by (bit_vector);
            assert(b >= 0xC0);
        }
        assert forall|k: int| 0 <= k < encode_utf8(rest).len() implies #[trigger] encode_utf8(
            rest,
        )[k] <= 0x7f by {
            assert(bytes[head.len() + k] == encode_utf8(rest)[k]);
        }
        lemma_ascii_bytes_ascii_chars(rest);
        assert forall|i: int| 0 <= i < chars.len() implies '\0' <= #[trigger] chars[i]
            <= '\u{7f}' by {
            if i > 0 {
                assert(chars[i] == rest[i - 1]);
            } else {
                lemma_char_code(chars[0]);
            }
        }
    }
}

/// The characters of a string are all decimal digits exactly when its UTF-8
/// bytes are all digit bytes, and then each byte is the code of the character
/// at its place.
pub proof fn lemma_digit_bytes(chars: Seq<char>)
    ensures
        all_digits(chars) <==> (forall|k: int|
            0 <= k < encode_utf8(chars).len() ==> ZERO <= #[trigger] encode_utf8(chars)[k] <= NINE),
        all_digits(chars) ==> encode_utf8(chars).len() == chars.len(),
        all_digits(chars) ==> (forall|k: int|
            0 <= k < chars.len() ==> #[trigger] encode_utf8(chars)[k] == chars[k] as u8),
{
    let bytes = encode_utf8(chars);
    if all_digits(chars) {
        assert(is_ascii_chars(chars));
        is_ascii_chars_encode_utf8(chars);
        assert forall|k: int| 0 <= k < bytes.len() implies ZERO <= #[trigger] bytes[k] <= NINE by {
            assert(is_digit(chars[k]));
        }
    }
    if forall|k: int| 0 <= k < bytes.len() ==> ZERO <= #[trigger] bytes[k] <= NINE {
        lemma_ascii_bytes_ascii_chars(chars);
        is_ascii_chars_encode_utf8(chars);
        assert forall|i: int| 0 <= i < chars.len() implies is_digit(#[trigger] chars[i]) by {
            assert(bytes[i] == chars[i] as u8);
        }
    }
}

/// Tells whether `b` is the byte of an ASCII decimal digit.
pub fn is_digit_byte(b: u8) -> (yes: bool)
    ensures
        yes == (ZERO <= b <= NINE),
{
    ZERO <= b && b <= NINE
}

/// Reads the digits of `tckn` as numbers.
pub fn parse_digits(tckn: &str) -> (digits: Vec<u16>)
    requires
        all_digits(tckn@),
    ensures
        digits@ == digits_of(tckn@),
        are_digits(digits@),
{
    let bytes = tckn.as_bytes();
    proof {
        lemma_digit_bytes(tckn@);
    }
    let mut digits: Vec<u16> = Vec::new();
    let mut i: usize = 0;
    while i < bytes.len()
        invariant
            all_digits(tckn@),
            bytes@.len() == tckn@.len(),
            forall|k: int| 0 <= k < bytes@.len() ==> #[trigger] bytes@[k] == tckn@[k] as u8,
            i <= bytes@.len(),
            digits@.len() == i,
            forall|k: int| 0 <= k < i ==> #[trigger] digits@[k] == digit_value(tckn@[k]) as u16,
            are_digits(digits@),
        decreases bytes@.len() - i,
    {
        assert(is_digit(tckn@[i as int]));
        let digit: u16 = (bytes[i] - ZERO) as u16;
        digits.push(digit);
        i = i + 1;
    }
    assert(digits@ =~= digits_of(tckn@));
    digits
}

/// The character that writes the digit `digit`.
pub open spec fn digit_char(digit: u16) -> char {
    (digit + ZERO) as char
}

/// Writing a digit and reading it again gives the digit back.
pub proof fn lemma_digit_char(digit: u16)
    requires
        digit <= 9,
    ensures
        is_digit(digit_char(digit)),
        digit_value(digit_char(digit)) == digit,
{
}

/// Reads the digit `c` as a number.
pub fn to_digit(c: char) -> (digit: u16)
    requires
        is_digit(c),
    ensures
        digit == digit_value(c),
        digit <= 9,
        digit_char(digit) == c,
{
    let code: u32 = c as u32;
    (code - ZERO as u32) as u16
}

/// Reads each digit of `chars` as a number.
pub fn to_digits(chars: &Vec<char>) -> (digits: Vec<u16>)
    requires
        all_digits(chars@),
    ensures
        digits@ == digits_of(chars@),
        are_digits(digits@),
{
    let mut digits: Vec<u16> = Vec::new();
    let mut i: usize = 0;
    while i < chars.len()
        invariant
            all_digits(chars@),
            i <= chars@.len(),
            digits@.len() == i,
            forall|k: int| 0 <= k < i ==> #[trigger] digits@[k] == digit_value(chars@[k]) as u16,
            are_digits(digits@),
        decreases chars@.len() - i,
    {
        assert(is_digit(chars@[i as int]));
        let digit: u16 = to_digit(chars[i]);
        digits.push(digit);
        i = i + 1;
    }
    assert(digits@ =~= digits_of(chars@));
    digits
}

/// Writes the digit `digit` as a string of one character.
pub fn digit_str(digit: u16) -> (s: &'static str)
    requires
        digit <= 9,
    ensures
        s@ == seq![digit_char(digit)],
{
    proof {
        reveal_strlit("0");
        reveal_strlit("1");
        reveal_strlit("2");
        reveal_strlit("3");
        reveal_strlit("4");
        reveal_strlit("5");
        reveal_strlit("6");
        reveal_strlit("7");
        reveal_strlit("8");
        reveal_strlit("9");
    }
    let s: &'static str = match digit {
        0 => "0",
        1 => "1",
        2 => "2",
        3 => "3",
        4 => "4",
        5 => "5",
        6 => "6",
        7 => "7",
        8 => "8",
        _ => "9",
    };
    assert(s@ =~= seq![digit_char(digit)]);
    s
}

} // verus!
