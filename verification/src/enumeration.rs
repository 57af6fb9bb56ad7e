//! The enumerators of an enum and the numerals that their values are printed
//! as.

use crate::dependencies::names_of;
use crate::numeral::{
    format_integer, hex_prefix, lemma_decimal_digits_are_digits, lemma_numeral_prefix, numeral,
};
use vstd::prelude::*;

verus! {

/// One enumerator: its name and its value.
#[derive(Debug, PartialEq, Eq)]
pub struct Enumerator {
    pub name: String,
    pub value: u64,
}

/// The numerals for the values of the enumerators, in declaration order.
pub open spec fn enumerator_numerals(enumerators: Seq<Enumerator>, hexadecimal: bool) -> Seq<
    Seq<char>,
> {
    Seq::new(enumerators.len(), |i: int| numeral(enumerators[i].value, hexadecimal))
}

/// With integers as hexadecimal every enumerator value starts with `0x`;
/// without, every one is made of the digits `0` to `9` alone.
pub proof fn lemma_enumerator_numerals(enumerators: Seq<Enumerator>, i: int)
    requires
        0 <= i < enumerators.len(),
    ensures
        hex_prefix().is_prefix_of(enumerator_numerals(enumerators, true)[i]),
        forall|k: int|
            0 <= k < enumerator_numerals(enumerators, false)[i].len() ==> '0'
                <= #[trigger] enumerator_numerals(enumerators, false)[i][k] <= '9',
{
    lemma_numeral_prefix(enumerators[i].value);
    lemma_decimal_digits_are_digits(enumerators[i].value as nat);
}

/// The numerals for the values of the enumerators, in declaration order.
pub fn format_enumerators(enumerators: &Vec<Enumerator>, hexadecimal: bool) -> (numerals: Vec<
    String,
>)
    ensures
        names_of(numerals@) == enumerator_numerals(enumerators@, hexadecimal),
{
    let mut numerals: Vec<String> = Vec::new();
    let mut i: usize = 0;
    while i < enumerators.len()
        invariant
            i <= enumerators.len(),
            numerals@.len() == i,
            forall|k: int|
                0 <= k < i ==> (#[trigger] numerals@[k])@ == numeral(
                    enumerators@[k].value,
                    hexadecimal,
                ),
        decreases enumerators.len() - i,
    {
        numerals.push(format_integer(enumerators[i].value, hexadecimal));
        i += 1;
    }
    assert(names_of(numerals@) =~= enumerator_numerals(enumerators@, hexadecimal));
    numerals
}

} // verus!
