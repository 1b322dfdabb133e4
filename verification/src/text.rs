//! Small tools for building the texts that the library shows to people.

use vstd::prelude::*;

verus! {

/// `String::push` appends one character to the string and leaves the rest as
/// it was.
pub assume_specification[ String::push ](text: &mut String, character: char)
    ensures
        final(text)@ == old(text)@.push(character),
;

/// The character that stands for a digit below ten.
pub open spec fn digit_char(digit: nat) -> char {
    (48 + digit) as char
}

/// A number written in decimal, without leading zeros.
pub open spec fn decimal(number: nat) -> Seq<char>
    decreases number,
{
    if number < 10 {
        seq![digit_char(number)]
    } else {
        decimal(number / 10).push(digit_char(number % 10))
    }
}

/// The character that stands for a digit below ten.
fn digit_to_char(digit: u8) -> (character: char)
    requires
        digit < 10,
    ensures
        character == digit_char(digit as nat),
{
    (48 + digit) as char
}

/// Appends `number`, written in decimal, to `text`.
pub fn push_decimal(text: &mut String, number: u64)
    ensures
        final(text)@ == old(text)@ + decimal(number as nat),
    decreases number,
{
    if number < 10 {
        text.push(digit_to_char(number as u8));
    } else {
        push_decimal(text, number / 10);
        text.push(digit_to_char((number % 10) as u8));
    }
}

} // verus!
