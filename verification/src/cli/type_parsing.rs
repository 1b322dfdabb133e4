//! Reading bytes that are written as pairs of hexadecimal digits, and numbers
//! that are written in decimal.

use vstd::prelude::*;
use vstd::std_specs::iter::IteratorSpec;
use vstd::string::StringExecFns;

use crate::text::decimal;

verus! {

/// The number that a hexadecimal digit stands for; `None` for every other
/// character. The digits above nine are the lower-case letters `a` to `f`.
pub open spec fn hex_value(character: char) -> Option<u8> {
    if '0' <= character && character <= '9' {
        Some((character as int - '0' as int) as u8)
    } else if 'a' <= character && character <= 'f' {
        Some((character as int - 'a' as int + 10) as u8)
    } else {
        None
    }
}

/// How many characters at the beginning of `text` are hexadecimal digits.
pub open spec fn hex_prefix(text: Seq<char>) -> nat
    decreases text.len(),
{
    if text.len() == 0 || hex_value(text[0]) is None {
        0
    } else {
        1 + hex_prefix(text.drop_first())
    }
}

/// Whether `text` is pairs of hexadecimal digits and nothing else.
pub open spec fn is_hex_string(text: Seq<char>) -> bool {
    text.len() % 2 == 0 && hex_prefix(text) == text.len()
}

/// The bytes that the pairs of digits in `text` stand for: in each pair the
/// first digit counts sixteen times.
pub open spec fn hex_bytes(text: Seq<char>) -> Seq<u8> {
    Seq::new(
        text.len() / 2,
        |i: int| (hex_value(text[2 * i])->0 * 16 + hex_value(text[2 * i + 1])->0) as u8,
    )
}

/// What is said of a text of odd length.
pub open spec fn odd_length_text() -> Seq<char> {
    "There must be an even number of characters. Every two characters corresponds to a byte."@
}

/// What is said of a character that is no hexadecimal digit.
pub open spec fn invalid_character_text(character: char) -> Seq<char> {
    "Invalid character: "@.push(character)
}

/// What is wrong with a text that is no hex string. The first character that
/// is no digit is named if it stands in a pair; a text that goes wrong only
/// at its unpaired last character is one of odd length.
pub open spec fn hex_error(text: Seq<char>) -> Seq<char> {
    if hex_prefix(text) < text.len() - text.len() % 2 {
        invalid_character_text(text[hex_prefix(text) as int])
    } else {
        odd_length_text()
    }
}

/// The first `count` characters of `text` are digits, and the next one, if
/// there is one, is none: then `count` is the length of the digits in front.
proof fn lemma_hex_prefix(text: Seq<char>, count: nat)
    requires
        count <= text.len(),
        forall|i: int| 0 <= i < count ==> hex_value(#[trigger] text[i]) is Some,
        count < text.len() ==> hex_value(text[count as int]) is None,
    ensures
        hex_prefix(text) == count,
    decreases count,
{
    if count > 0 {
        let rest = text.drop_first();
        assert forall|i: int| 0 <= i < count - 1 implies hex_value(#[trigger] rest[i]) is Some by {}
        lemma_hex_prefix(rest, (count - 1) as nat);
    }
}

/// At least the first `count` characters of `text` are digits.
proof fn lemma_hex_prefix_at_least(text: Seq<char>, count: nat)
    requires
        count <= text.len(),
        forall|i: int| 0 <= i < count ==> hex_value(#[trigger] text[i]) is Some,
    ensures
        hex_prefix(text) >= count,
    decreases count,
{
    if count > 0 {
        let rest = text.drop_first();
        assert forall|i: int| 0 <= i < count - 1 implies hex_value(#[trigger] rest[i]) is Some by {}
        lemma_hex_prefix_at_least(rest, (count - 1) as nat);
    }
}

/// The number that a hexadecimal digit stands for.
pub fn hex_to_number(character: char) -> (number: Option<u8>)
    ensures
        number == hex_value(character),
        number matches Some(value) ==> value < 16,
{
    match character {
        '0' => Some(0),
        '1' => Some(1),
        '2' => Some(2),
        '3' => Some(3),
        '4' => Some(4),
        '5' => Some(5),
        '6' => Some(6),
        '7' => Some(7),
        '8' => Some(8),
        '9' => Some(9),
        'a' => Some(10),
        'b' => Some(11),
        'c' => Some(12),
        'd' => Some(13),
        'e' => Some(14),
        'f' => Some(15),
        _ => None,
    }
}

/// The text that names a character which is no hexadecimal digit.
fn invalid_character(character: char) -> (text: String)
    ensures
        text@ == invalid_character_text(character),
{
    let mut text = String::from_str("Invalid character: ");
    text.push(character);
    text
}

/// Reads bytes written as pairs of hexadecimal digits. Succeeds exactly on
/// the texts that are such pairs and nothing else; the empty text gives no
/// bytes.
pub fn hex_string_to_bytes(input: &str) -> (result: Result<Vec<u8>, String>)
    ensures
        result is Ok <==> is_hex_string(input@),
        result matches Ok(bytes) ==> bytes@ == hex_bytes(input@),
        result matches Err(message) ==> message@ == hex_error(input@),
{
    let ghost text = input@;
    let mut bytes: Vec<u8> = Vec::new();
    let mut chars = input.chars();
    let ghost mut at: int = 0;
    loop
        invariant
            text == input@,
            0 <= at <= text.len(),
            at % 2 == 0,
            chars.remaining() == text.skip(at),
            chars.decrease() is Some,
            forall|i: int| 0 <= i < at ==> hex_value(#[trigger] text[i]) is Some,
            bytes@.len() == at / 2,
            forall|i: int|
                0 <= i < at / 2 ==> #[trigger] bytes@[i] == (hex_value(text[2 * i])->0 * 16
                    + hex_value(text[2 * i + 1])->0) as u8,
        decreases chars.decrease()->0,
    {
        let first_char = match chars.next() {
            Some(res) => res,
            None => {
                proof {
                    lemma_hex_prefix(text, at as nat);
                }
                return Ok(bytes);
            },
        };
        let second_char = match chars.next() {
            Some(res) => res,
            None => {
                proof {
                    lemma_hex_prefix_at_least(text, at as nat);
                }
                return Err(
                    String::from_str(
                        "There must be an even number of characters. Every two characters corresponds to a byte.",
                    ),
                );
            },
        };
        let n1 = match hex_to_number(first_char) {
            Some(res) => res,
            None => {
                proof {
                    lemma_hex_prefix(text, at as nat);
                }
                return Err(invalid_character(first_char));
            },
        };
        let n2 = match hex_to_number(second_char) {
            Some(res) => res,
            None => {
                proof {
                    lemma_hex_prefix(text, (at + 1) as nat);
                }
                return Err(invalid_character(second_char));
            },
        };
        let byte = n1 * 16 + n2;
        bytes.push(byte);
        proof {
            at = at + 2;
        }
    }
}

/// Whether the character is a decimal digit.
pub open spec fn is_decimal_digit(character: char) -> bool {
    '0' <= character && character <= '9'
}

/// The number that decimal digits stand for; the empty text stands for zero.
pub open spec fn decimal_value(digits: Seq<char>) -> nat
    decreases digits.len(),
{
    if digits.len() == 0 {
        0
    } else {
        decimal_value(digits.drop_last()) * 10 + (digits.last() as int - '0' as int) as nat
    }
}

/// The digits of a text: the text without the plus sign that may stand in
/// front of it.
pub open spec fn decimal_digits(text: Seq<char>) -> Seq<char> {
    if text.len() > 0 && text[0] == '+' {
        text.drop_first()
    } else {
        text
    }
}

/// Whether `text` is a number that fits in 64 bits: at least one decimal
/// digit and nothing else, but for a plus sign that may stand in front.
pub open spec fn is_decimal_number(text: Seq<char>) -> bool {
    &&& decimal_digits(text).len() > 0
    &&& forall|i: int|
        0 <= i < decimal_digits(text).len() ==> is_decimal_digit(#[trigger] decimal_digits(text)[i])
    &&& decimal_value(decimal_digits(text)) <= u64::MAX
}

/// A number written in decimal reads as itself: what `decimal` writes is
/// digits only, and their value is the number.
pub proof fn lemma_decimal_round_trip(number: nat)
    ensures
        decimal(number).len() > 0,
        forall|i: int| 0 <= i < decimal(number).len() ==> is_decimal_digit(decimal(number)[i]),
        decimal_value(decimal(number)) == number,
    decreases number,
{
    if number < 10 {
        reveal_with_fuel(decimal_value, 2);
    } else {
        lemma_decimal_round_trip(number / 10);
        assert(decimal(number).drop_last() =~= decimal(number / 10));
    }
}

/// More digits do not make a smaller number.
proof fn lemma_decimal_value_grows(digits: Seq<char>, count: int)
    requires
        0 <= count <= digits.len(),
        forall|i: int| 0 <= i < digits.len() ==> is_decimal_digit(#[trigger] digits[i]),
    ensures
        decimal_value(digits.take(count)) <= decimal_value(digits),
    decreases digits.len() - count,
{
    if count < digits.len() {
        lemma_decimal_value_grows(digits, count + 1);
        assert(digits.take(count + 1).drop_last() =~= digits.take(count));
    } else {
        assert(digits.take(count) =~= digits);
    }
}

/// Reads a number written in decimal. Succeeds exactly on the texts that are
/// a number that fits in 64 bits.
pub fn decimal_to_number(input: &str) -> (number: Option<u64>)
    ensures
        number is Some <==> is_decimal_number(input@),
        number matches Some(value) ==> value == decimal_value(decimal_digits(input@)),
{
    let ghost text = input@;
    let ghost digits = decimal_digits(text);
    let mut chars = input.chars();
    let mut value: u64 = 0;
    let mut any_digit = false;
    let ghost mut at: int = 0;
    let first = match chars.next() {
        Some(first) => first,
        None => {
            return None;
        },
    };
    if first != '+' {
        if !('0' <= first && first <= '9') {
            return None;
        }
        value = (first as u8 - 48) as u64;
        any_digit = true;
        proof {
            at = 1;
            reveal_with_fuel(decimal_value, 2);
        }
    }
    loop
        invariant
            digits == decimal_digits(input@),
            0 <= at <= digits.len(),
            any_digit == (at > 0),
            chars.remaining() == digits.skip(at),
            chars.decrease() is Some,
            forall|i: int| 0 <= i < at ==> is_decimal_digit(#[trigger] digits[i]),
            value == decimal_value(digits.take(at)),
        decreases chars.decrease()->0,
    {
        let character = match chars.next() {
            Some(character) => character,
            None => {
                proof {
                    assert(digits.take(at) =~= digits);
                }
                return if any_digit {
                    Some(value)
                } else {
                    None
                };
            },
        };
        if !('0' <= character && character <= '9') {
            return None;
        }
        let digit: u64 = (character as u8 - 48) as u64;
        proof {
            assert(digits.take(at + 1).drop_last() =~= digits.take(at));
        }
        if value > (u64::MAX - digit) / 10 {
            proof {
                if is_decimal_number(input@) {
                    lemma_decimal_value_grows(digits, at + 1);
                }
            }
            return None;
        }
        value = value * 10 + digit;
        any_digit = true;
        proof {
            at = at + 1;
        }
    }
}

} // verus!
