//! The text of number literals.

use crate::nodes::expressions::{
    BinaryNumber, DecimalNumber, DecimalValue, HexNumber, NumberExpression,
};
use vstd::prelude::*;

verus! {

/// The character of the digit `digit`, for digits below sixteen; lower case
/// beyond nine.
pub open spec fn digit_char(digit: nat) -> char {
    let digits = seq![
        '0', '1', '2', '3', '4', '5', '6', '7', '8', '9', 'a', 'b', 'c', 'd', 'e', 'f',
    ];
    digits[digit as int]
}

/// The digits of `value` in base `base`, most significant first, without
/// leading zeros; `0` for zero.
pub open spec fn digits_text(value: nat, base: nat) -> Seq<char>
    decreases value,
{
    if base < 2 || value < base {
        seq![digit_char(value)]
    } else {
        proof {
            lemma_quotient_is_smaller(value, base);
        }
        digits_text(value / base, base).push(digit_char(value % base))
    }
}

/// Dividing by two or more makes a positive number smaller.
pub proof fn lemma_quotient_is_smaller(value: nat, base: nat)
    by (nonlinear_arith)
    requires
        base >= 2,
        value >= 1,
    ensures
        value / base < value,
{
}

/// `value` in decimal, with a minus sign before a negative value.
pub open spec fn signed_text(value: int) -> Seq<char> {
    if value < 0 {
        seq!['-'] + digits_text((-value) as nat, 10)
    } else {
        digits_text(value as nat, 10)
    }
}

/// The letter `lower`, or its capital `upper` when `is_uppercase` records one.
pub open spec fn letter(is_uppercase: Option<bool>, lower: char, upper: char) -> char {
    if is_uppercase == Some(true) {
        upper
    } else {
        lower
    }
}

/// The text of a decimal number: `(0/0)` for what is not a number, `(1/0)` and
/// `(-1/0)` for the infinities, and else the decimal text of the value,
/// followed by the exponent where one is recorded.
pub open spec fn decimal_text(number: DecimalNumber) -> Seq<char> {
    match number.value {
        DecimalValue::NotANumber => "(0/0)"@,
        DecimalValue::PositiveInfinity => "(1/0)"@,
        DecimalValue::NegativeInfinity => "(-1/0)"@,
        DecimalValue::Finite(text) => match number.exponent {
            Some(exponent) => text@.push(letter(number.is_uppercase, 'e', 'E')) + signed_text(
                exponent as int,
            ),
            None => text@,
        },
    }
}

/// The text of a hexadecimal number: `0x` and the digits, followed by `p` and
/// the exponent where one is recorded.
pub open spec fn hex_text(number: HexNumber) -> Seq<char> {
    let digits = seq!['0', if number.is_x_uppercase { 'X' } else { 'x' }] + digits_text(
        number.integer as nat,
        16,
    );
    match number.exponent {
        Some(exponent) => digits.push(letter(number.is_exponent_uppercase, 'p', 'P'))
            + digits_text(exponent as nat, 10),
        None => digits,
    }
}

/// The text of a binary number: `0b` and the digits.
pub open spec fn binary_text(number: BinaryNumber) -> Seq<char> {
    seq!['0', if number.is_b_uppercase { 'B' } else { 'b' }] + digits_text(number.value as nat, 2)
}

/// The text of a number literal.
pub open spec fn number_text(number: NumberExpression) -> Seq<char> {
    match number {
        NumberExpression::Decimal(number) => decimal_text(number),
        NumberExpression::Hex(number) => hex_text(number),
        NumberExpression::Binary(number) => binary_text(number),
    }
}

/// The character of a digit below sixteen.
pub fn digit_character(digit: u64) -> (character: char)
    requires
        digit < 16,
    ensures
        character == digit_char(digit as nat),
{
    match digit {
        0 => '0',
        1 => '1',
        2 => '2',
        3 => '3',
        4 => '4',
        5 => '5',
        6 => '6',
        7 => '7',
        8 => '8',
        9 => '9',
        10 => 'a',
        11 => 'b',
        12 => 'c',
        13 => 'd',
        14 => 'e',
        _ => 'f',
    }
}

/// Appends the digits of `value` in base `base` to `text`.
pub fn push_digits(text: &mut String, value: u64, base: u64)
    requires
        2 <= base <= 16,
    ensures
        final(text)@ == old(text)@ + digits_text(value as nat, base as nat),
    decreases value,
{
    if value >= base {
        proof {
            lemma_quotient_is_smaller(value as nat, base as nat);
        }
        push_digits(text, value / base, base);
    }
    text.push(digit_character(value % base));
    proof {
        let before = old(text)@;
        if value >= base {
            assert(text@ =~= before + digits_text(value as nat / base as nat, base as nat).push(
                digit_char(value as nat % base as nat),
            ));
        } else {
            assert(value % base == value) by (nonlinear_arith)
                requires
                    value < base,
            ;
            assert(text@ =~= before + seq![digit_char(value as nat)]);
        }
    }
}

/// Appends `value` in decimal to `text`, with a minus sign before a negative
/// value.
pub fn push_signed(text: &mut String, value: i64)
    ensures
        final(text)@ == old(text)@ + signed_text(value as int),
{
    if value < 0 {
        text.push('-');
        let magnitude: u64 = (-(value + 1)) as u64 + 1;
        push_digits(text, magnitude, 10);
        assert(text@ =~= old(text)@ + (seq!['-'] + digits_text((-value) as nat, 10)));
    } else {
        push_digits(text, value as u64, 10);
    }
}

} // verus!
