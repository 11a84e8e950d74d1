//! Numbers written as text: the hexadecimal quantities that a ledger node
//! gives, and plain decimal numbers.

use vstd::prelude::*;
use vstd::string::*;

verus! {

/// The value of a character as a digit: `0` to `9` count zero to nine, and the
/// letters, in either case, count from ten on. `None` for any other character.
pub open spec fn digit_value(c: char) -> Option<nat> {
    if '0' <= c && c <= '9' {
        Some((c as u8 - '0' as u8) as nat)
    } else if 'a' <= c && c <= 'z' {
        Some((c as u8 - 'a' as u8 + 10) as nat)
    } else if 'A' <= c && c <= 'Z' {
        Some((c as u8 - 'A' as u8 + 10) as nat)
    } else {
        None
    }
}

/// Whether a character is a digit to the base `radix`.
pub open spec fn is_digit(c: char, radix: nat) -> bool {
    digit_value(c) matches Some(d) && d < radix
}

/// Whether a text is made of digits to the base `radix` only.
pub open spec fn all_digits(digits: Seq<char>, radix: nat) -> bool {
    forall|i: int| 0 <= i < digits.len() ==> is_digit(#[trigger] digits[i], radix)
}

/// The number that a text of digits stands for to the base `radix`, the first
/// digit weighing most.
pub open spec fn value_of(digits: Seq<char>, radix: nat) -> nat
    decreases digits.len(),
{
    if digits.len() == 0 {
        0
    } else {
        radix * value_of(digits.drop_last(), radix) + digit_value(digits.last()).unwrap_or(0)
    }
}

/// The text without the plus sign that may stand before its digits. A plus
/// sign with nothing behind it is no sign.
pub open spec fn without_sign(text: Seq<char>) -> Seq<char> {
    if text.len() > 1 && text[0] == '+' {
        text.skip(1)
    } else {
        text
    }
}

/// The number that a text stands for to the base `radix`, if it is one and does
/// not exceed `max`: after the sign at least one digit, and digits only.
pub open spec fn number(text: Seq<char>, radix: nat, max: nat) -> Option<nat> {
    let digits = without_sign(text);
    if digits.len() > 0 && all_digits(digits, radix) && value_of(digits, radix) <= max {
        Some(value_of(digits, radix))
    } else {
        None
    }
}

/// The text without the `0x` that it starts with, however often that is repeated.
pub open spec fn without_prefix(text: Seq<char>) -> Seq<char>
    decreases text.len(),
{
    if text.len() >= 2 && text[0] == '0' && text[1] == 'x' {
        without_prefix(text.skip(2))
    } else {
        text
    }
}

/// The hexadecimal quantity that a text stands for as a `u128`: what is left
/// without the prefix, read to the base sixteen.
pub open spec fn hex_u128(text: Seq<char>) -> Option<u128> {
    match number(without_prefix(text), 16, u128::MAX as nat) {
        Some(v) => Some(v as u128),
        None => None,
    }
}

/// The hexadecimal quantity that a text stands for as a `u64`.
pub open spec fn hex_u64(text: Seq<char>) -> Option<u64> {
    match number(without_prefix(text), 16, u64::MAX as nat) {
        Some(v) => Some(v as u64),
        None => None,
    }
}

/// The decimal number that a text stands for as a `u64`.
pub open spec fn decimal_u64(text: Seq<char>) -> Option<u64> {
    match number(text, 10, u64::MAX as nat) {
        Some(v) => Some(v as u64),
        None => None,
    }
}

/// The value of a text of digits is at least the value of each of its beginnings.
proof fn lemma_value_grows(digits: Seq<char>, radix: nat, k: int)
    requires
        0 <= k <= digits.len(),
        radix >= 1,
    ensures
        value_of(digits.take(k), radix) <= value_of(digits, radix),
    decreases digits.len() - k,
{
    if k == digits.len() {
        assert(digits.take(k) =~= digits);
    } else {
        lemma_value_grows(digits, radix, k + 1);
        let longer = digits.take(k + 1);
        assert(longer.drop_last() =~= digits.take(k));
        let shorter = value_of(digits.take(k), radix);
        assert(shorter <= radix * shorter) by (nonlinear_arith)
            requires
                radix >= 1,
                shorter >= 0,
        ;
    }
}

/// What is left without the prefix is an end of the text.
proof fn lemma_without_prefix_is_suffix(text: Seq<char>)
    ensures
        without_prefix(text).len() <= text.len(),
        without_prefix(text) == text.skip(text.len() - without_prefix(text).len()),
    decreases text.len(),
{
    if text.len() >= 2 && text[0] == '0' && text[1] == 'x' {
        let rest = text.skip(2);
        lemma_without_prefix_is_suffix(rest);
        let k = rest.len() - without_prefix(rest).len();
        assert(rest.skip(k) =~= text.skip(k + 2));
    } else {
        assert(text.skip(0) =~= text);
    }
}

/// A character that is neither `0` nor `x` is not in the prefix that is taken off.
proof fn lemma_prefix_holds_no_other(text: Seq<char>, i: int)
    requires
        0 <= i < text.len(),
        text[i] != '0',
        text[i] != 'x',
    ensures
        i >= text.len() - without_prefix(text).len(),
    decreases text.len(),
{
    if text.len() >= 2 && text[0] == '0' && text[1] == 'x' {
        lemma_prefix_holds_no_other(text.skip(2), i - 2);
    }
}

/// A text with a character that is no digit and no plus sign stands for no number.
proof fn lemma_stray_character_is_no_number(text: Seq<char>, i: int, radix: nat, max: nat)
    requires
        0 <= i < text.len(),
        digit_value(text[i]) is None,
        text[i] != '+',
    ensures
        number(text, radix, max) is None,
{
    let digits = without_sign(text);
    if text.len() > 1 && text[0] == '+' {
        assert(digits[i - 1] == text[i]);
        assert(!is_digit(digits[i - 1], radix));
    } else {
        assert(!is_digit(digits[i], radix));
    }
}

/// A text with a character beyond ASCII stands for no number, with or without
/// the prefix.
proof fn lemma_not_ascii_is_no_number(text: Seq<char>, radix: nat, max: nat)
    requires
        !vstd::utf8::is_ascii_chars(text),
    ensures
        number(text, radix, max) is None,
        number(without_prefix(text), radix, max) is None,
{
    let i = choose|i: int| 0 <= i < text.len() && !('\0' <= #[trigger] text[i] <= '\u{7f}');
    lemma_stray_character_is_no_number(text, i, radix, max);
    lemma_without_prefix_is_suffix(text);
    lemma_prefix_holds_no_other(text, i);
    let stripped = without_prefix(text);
    let k = text.len() - stripped.len();
    assert(stripped[i - k] == text[i]);
    lemma_stray_character_is_no_number(stripped, i - k, radix, max);
}

const ZERO: u8 = 48;

const NINE: u8 = 57;

const UPPER_A: u8 = 65;

const UPPER_Z: u8 = 90;

const LOWER_A: u8 = 97;

const LOWER_X: u8 = 120;

const LOWER_Z: u8 = 122;

const PLUS: u8 = 43;

/// The value of an ASCII byte as a digit to the base `radix`.
fn digit_of_byte(b: u8, radix: u8) -> (digit: Option<u8>)
    requires
        b < 128,
        radix <= 36,
    ensures
        digit matches Some(d) ==> digit_value(b as char) == Some(d as nat) && d < radix,
        digit is None ==> !is_digit(b as char, radix as nat),
{
    let value = if ZERO <= b && b <= NINE {
        b - ZERO
    } else if LOWER_A <= b && b <= LOWER_Z {
        b - LOWER_A + 10
    } else if UPPER_A <= b && b <= UPPER_Z {
        b - UPPER_A + 10
    } else {
        return None;
    };
    if value < radix {
        Some(value)
    } else {
        None
    }
}

/// Reads the number that stands in an ASCII text from the place `start` on.
fn parse_from(text: &str, start: usize, radix: u8, max: u128) -> (value: Option<u128>)
    requires
        text.is_ascii(),
        start <= text@.len(),
        1 <= radix <= 36,
    ensures
        value matches Some(v) ==> number(text@.skip(start as int), radix as nat, max as nat)
            == Some(v as nat),
        value is None ==> number(text@.skip(start as int), radix as nat, max as nat) is None,
{
    let n = text.unicode_len();
    let ghost signed = text@.skip(start as int);
    let mut first = start;
    if n - first > 1 && text.get_ascii(first) == PLUS {
        proof {
            assert(signed.skip(1) =~= text@.skip(first + 1));
        }
        first = first + 1;
    }
    let ghost digits = text@.skip(first as int);
    assert(digits == without_sign(signed));
    if first == n {
        return None;
    }
    let mut acc: u128 = 0;
    let mut i: usize = first;
    while i < n
        invariant
            first <= i <= n,
            n == text@.len(),
            text.is_ascii(),
            1 <= radix <= 36,
            digits == text@.skip(first as int),
            digits == without_sign(text@.skip(start as int)),
            all_digits(digits.take(i - first), radix as nat),
            acc == value_of(digits.take(i - first), radix as nat),
            acc <= max,
        decreases n - i,
    {
        let b = text.get_ascii(i);
        proof {
            let c = text@[i as int];
            assert('\0' <= c <= '\u{7f}');
            assert(b as char == c);
            assert(digits[i - first] == c);
            assert(digits.take(i - first + 1).drop_last() =~= digits.take(i - first));
            assert(digits.take(i - first + 1).last() == c);
            lemma_value_grows(digits, radix as nat, i - first + 1);
            assert(acc * radix == radix * acc) by (nonlinear_arith);
        }
        let digit = match digit_of_byte(b, radix) {
            Some(d) => d,
            None => {
                return None;
            },
        };
        let shifted = match acc.checked_mul(radix as u128) {
            Some(s) => s,
            None => {
                return None;
            },
        };
        let next = match shifted.checked_add(digit as u128) {
            Some(s) => s,
            None => {
                return None;
            },
        };
        if next > max {
            return None;
        }
        acc = next;
        i = i + 1;
    }
    proof {
        assert(digits.take(n - first) =~= digits);
    }
    Some(acc)
}

/// Reads a hexadecimal quantity that does not exceed `max`.
fn parse_hex(text: &str, max: u128) -> (value: Option<u128>)
    ensures
        value matches Some(v) ==> number(without_prefix(text@), 16, max as nat) == Some(v as nat),
        value is None ==> number(without_prefix(text@), 16, max as nat) is None,
{
    if !text.is_ascii() {
        proof {
            lemma_not_ascii_is_no_number(text@, 16, max as nat);
        }
        return None;
    }
    let n = text.unicode_len();
    let mut start: usize = 0;
    proof {
        assert(text@.skip(0) =~= text@);
    }
    while n - start >= 2 && text.get_ascii(start) == ZERO && text.get_ascii(start + 1) == LOWER_X
        invariant
            start <= n,
            n == text@.len(),
            text.is_ascii(),
            without_prefix(text@) == without_prefix(text@.skip(start as int)),
        decreases n - start,
    {
        proof {
            assert(text@.skip(start as int).skip(2) =~= text@.skip(start + 2));
        }
        start = start + 2;
    }
    proof {
        assert(text@.skip(start as int).len() == n - start);
        if n - start >= 2 {
            assert(text@.skip(start as int)[0] == text@[start as int]);
            assert(text@.skip(start as int)[1] == text@[start + 1]);
        }
        assert(without_prefix(text@) == text@.skip(start as int));
    }
    parse_from(text, start, 16, max)
}

/// Reads a hexadecimal quantity of up to 128 bits.
pub fn parse_hex_u128(text: &str) -> (value: Option<u128>)
    ensures
        value == hex_u128(text@),
{
    parse_hex(text, u128::MAX)
}

/// Reads a hexadecimal quantity of up to 64 bits.
pub fn parse_hex_u64(text: &str) -> (value: Option<u64>)
    ensures
        value == hex_u64(text@),
{
    match parse_hex(text, u64::MAX as u128) {
        Some(v) => Some(v as u64),
        None => None,
    }
}

/// Reads a decimal number of up to 64 bits.
pub fn parse_decimal_u64(text: &str) -> (value: Option<u64>)
    ensures
        value == decimal_u64(text@),
{
    if !text.is_ascii() {
        proof {
            lemma_not_ascii_is_no_number(text@, 10, u64::MAX as nat);
        }
        return None;
    }
    proof {
        assert(text@.skip(0) =~= text@);
    }
    match parse_from(text, 0, 10, u64::MAX as u128) {
        Some(v) => Some(v as u64),
        None => None,
    }
}

} // verus!
