//! Integer values as they are printed in a declaration: decimal numerals, or
//! hexadecimal numerals behind the prefix `0x`.

use vstd::arithmetic::div_mod::{lemma_div_decreases, lemma_fundamental_div_mod};
use vstd::prelude::*;
use vstd::string::*;

verus! {

/// The character for one digit: `0` to `9`, then `a` to `f`.
pub open spec fn digit_char(digit: int) -> char {
    if digit == 0 {
        '0'
    } else if digit == 1 {
        '1'
    } else if digit == 2 {
        '2'
    } else if digit == 3 {
        '3'
    } else if digit == 4 {
        '4'
    } else if digit == 5 {
        '5'
    } else if digit == 6 {
        '6'
    } else if digit == 7 {
        '7'
    } else if digit == 8 {
        '8'
    } else if digit == 9 {
        '9'
    } else if digit == 10 {
        'a'
    } else if digit == 11 {
        'b'
    } else if digit == 12 {
        'c'
    } else if digit == 13 {
        'd'
    } else if digit == 14 {
        'e'
    } else {
        'f'
    }
}

/// The digit that a character stands for; 0 for a character that is none.
pub open spec fn digit_value(c: char) -> nat {
    if c == '1' {
        1
    } else if c == '2' {
        2
    } else if c == '3' {
        3
    } else if c == '4' {
        4
    } else if c == '5' {
        5
    } else if c == '6' {
        6
    } else if c == '7' {
        7
    } else if c == '8' {
        8
    } else if c == '9' {
        9
    } else if c == 'a' {
        10
    } else if c == 'b' {
        11
    } else if c == 'c' {
        12
    } else if c == 'd' {
        13
    } else if c == 'e' {
        14
    } else if c == 'f' {
        15
    } else {
        0
    }
}

/// The digits of `value` in `base`, most significant first, without leading
/// zeros; the single digit `0` for the value 0.
pub open spec fn digits(value: nat, base: nat) -> Seq<char>
    decreases value,
    via digits_terminates
{
    if base < 2 || value < base {
        seq![digit_char(value as int)]
    } else {
        digits(value / base, base).push(digit_char((value % base) as int))
    }
}

#[via_fn]
proof fn digits_terminates(value: nat, base: nat) {
    if base >= 2 && value >= base {
        lemma_div_decreases(value as int, base as int);
    }
}

/// The number that a sequence of digits denotes in `base`.
pub open spec fn digits_value(text: Seq<char>, base: nat) -> nat
    decreases text.len(),
{
    if text.len() == 0 {
        0
    } else {
        digits_value(text.drop_last(), base) * base + digit_value(text.last())
    }
}

/// The prefix of a hexadecimal numeral.
pub open spec fn hex_prefix() -> Seq<char> {
    seq!['0', 'x']
}

/// The numeral for `value`: its hexadecimal digits behind `0x`, or its
/// decimal digits.
pub open spec fn numeral(value: u64, hexadecimal: bool) -> Seq<char> {
    if hexadecimal {
        hex_prefix() + digits(value as nat, 16)
    } else {
        digits(value as nat, 10)
    }
}

/// The number that a numeral denotes, read as `numeral` writes it.
pub open spec fn numeral_value(text: Seq<char>, hexadecimal: bool) -> nat {
    if hexadecimal {
        digits_value(text.skip(2), 16)
    } else {
        digits_value(text, 10)
    }
}

/// The digits of a value denote that value.
pub proof fn lemma_digits_denote_value(value: nat, base: nat)
    requires
        2 <= base <= 16,
    ensures
        digits_value(digits(value, base), base) == value,
    decreases value,
{
    let text = digits(value, base);
    if value < base {
        assert(text.drop_last() =~= Seq::<char>::empty());
        assert(digits_value(text.drop_last(), base) == 0);
        assert(digits_value(text.drop_last(), base) * base == 0) by (nonlinear_arith)
            requires
                digits_value(text.drop_last(), base) == 0,
        ;
    } else {
        lemma_div_decreases(value as int, base as int);
        lemma_digits_denote_value(value / base, base);
        assert(text.drop_last() =~= digits(value / base, base));
        lemma_fundamental_div_mod(value as int, base as int);
        assert((value / base) * base == base * (value / base)) by (nonlinear_arith);
    }
}

/// Printing integers as hexadecimal changes how a value is spelled and not
/// the value: both numerals denote the value they were made from.
pub proof fn lemma_numeral_denotes_value(value: u64, hexadecimal: bool)
    ensures
        numeral_value(numeral(value, hexadecimal), hexadecimal) == value,
        numeral_value(numeral(value, true), true) == numeral_value(numeral(value, false), false),
{
    lemma_digits_denote_value(value as nat, 16);
    lemma_digits_denote_value(value as nat, 10);
    assert(numeral(value, true).skip(2) =~= digits(value as nat, 16));
}

/// A hexadecimal numeral starts with `0x`; a decimal numeral holds no `x`.
pub proof fn lemma_numeral_prefix(value: u64)
    ensures
        hex_prefix().is_prefix_of(numeral(value, true)),
        !numeral(value, false).contains('x'),
{
    assert(numeral(value, true).subrange(0, 2) =~= hex_prefix());
    lemma_decimal_digits_are_digits(value as nat);
}

/// Every character of a decimal numeral is one of `0` to `9`.
pub proof fn lemma_decimal_digits_are_digits(value: nat)
    ensures
        forall|i: int|
            0 <= i < digits(value, 10).len() ==> '0' <= #[trigger] digits(value, 10)[i] <= '9',
    decreases value,
{
    let text = digits(value, 10);
    if value >= 10 {
        lemma_decimal_digits_are_digits(value / 10);
        let before = digits(value / 10, 10);
        assert forall|i: int| 0 <= i < text.len() implies '0' <= #[trigger] text[i] <= '9' by {
            if i < before.len() {
                assert(text[i] == before[i]);
            }
        }
    }
}

fn digit_text(digit: u64) -> (text: &'static str)
    requires
        digit < 16,
    ensures
        text@ == seq![digit_char(digit as int)],
{
    proof {
        reveal_strlit("0");
        reveal_strlit("1");
        reveal_strlit("2");
        reveal_strlit("3");
        reveal_strlit("4");
        reveal_strlit("5");
        reveal_strlit("6");
        reveal_strlit("7");
        reveal_strlit("8");
        reveal_strlit("9");
        reveal_strlit("a");
        reveal_strlit("b");
        reveal_strlit("c");
        reveal_strlit("d");
        reveal_strlit("e");
        reveal_strlit("f");
    }
    let text = if digit == 0 {
        "0"
    } else if digit == 1 {
        "1"
    } else if digit == 2 {
        "2"
    } else if digit == 3 {
        "3"
    } else if digit == 4 {
        "4"
    } else if digit == 5 {
        "5"
    } else if digit == 6 {
        "6"
    } else if digit == 7 {
        "7"
    } else if digit == 8 {
        "8"
    } else if digit == 9 {
        "9"
    } else if digit == 10 {
        "a"
    } else if digit == 11 {
        "b"
    } else if digit == 12 {
        "c"
    } else if digit == 13 {
        "d"
    } else if digit == 14 {
        "e"
    } else {
        "f"
    };
    assert(text@ =~= seq![digit_char(digit as int)]);
    text
}

fn push_digits(out: &mut String, value: u64, base: u64)
    requires
        2 <= base <= 16,
    ensures
        final(out)@ == old(out)@ + digits(value as nat, base as nat),
    decreases value,
{
    if value >= base {
        proof {
            lemma_div_decreases(value as int, base as int);
        }
        push_digits(out, value / base, base);
    }
    out.append(digit_text(value % base));
    proof {
        if value >= base {
            assert(final(out)@ =~= old(out)@ + digits(value as nat, base as nat));
        } else {
            assert(value % base == value) by (nonlinear_arith)
                requires
                    0 <= value < base,
            ;
        }
    }
}

/// Adds the numeral for `value` to the end of `out`.
pub fn push_integer(out: &mut String, value: u64, hexadecimal: bool)
    ensures
        final(out)@ == old(out)@ + numeral(value, hexadecimal),
{
    if hexadecimal {
        proof {
            reveal_strlit("0x");
        }
        out.append("0x");
        push_digits(out, value, 16);
        assert(final(out)@ =~= old(out)@ + numeral(value, hexadecimal));
    } else {
        push_digits(out, value, 10);
    }
}

/// The numeral for `value` as a string.
pub fn format_integer(value: u64, hexadecimal: bool) -> (text: String)
    ensures
        text@ == numeral(value, hexadecimal),
{
    let mut text = String::new();
    push_integer(&mut text, value, hexadecimal);
    assert(text@ =~= numeral(value, hexadecimal));
    text
}

} // verus!
