//! What numbers are spelled as.

use crate::text::{decimal, hexadecimal};
use vstd::prelude::*;

verus! {

/// The number that a digit stands for.
pub open spec fn digit_value(digit: char) -> int {
    if '0' <= digit <= '9' {
        digit as int - '0' as int
    } else {
        digit as int - 'a' as int + 10
    }
}

/// The number that a text stands for, its last digit counting ones.
pub open spec fn text_value(text: Seq<char>, base: int) -> int
    decreases text.len(),
{
    if text.len() == 0 {
        0
    } else {
        base * text_value(text.drop_last(), base) + digit_value(text.last())
    }
}

/// The decimal text of a number stands for the number, without leading zeros.
pub proof fn a_decimal_text_stands_for_its_number(value: nat)
    ensures
        text_value(decimal(value), 10) == value,
        decimal(value).len() > 0,
        value > 0 ==> decimal(value)[0] != '0',
    decreases value,
{
    reveal_with_fuel(text_value, 2);
    if value < 10 {
        assert(decimal(value).drop_last() =~= Seq::empty());
    } else {
        a_decimal_text_stands_for_its_number(value / 10);
        assert(decimal(value).drop_last() =~= decimal(value / 10));
    }
}

/// Sixteen to the `width`.
pub open spec fn sixteens(width: nat) -> nat
    decreases width,
{
    if width == 0 {
        1
    } else {
        16 * sixteens((width - 1) as nat)
    }
}

/// The hexadecimal text of a number that fits its width stands for the number.
pub proof fn a_hexadecimal_text_stands_for_its_number(value: nat, width: nat)
    requires
        value < sixteens(width),
    ensures
        hexadecimal(value, width).len() == width,
        text_value(hexadecimal(value, width), 16) == value,
    decreases width,
{
    if width > 0 {
        a_hexadecimal_text_stands_for_its_number(value / 16, (width - 1) as nat);
        assert(hexadecimal(value, width).drop_last() =~= hexadecimal(
            value / 16,
            (width - 1) as nat,
        ));
    }
}

} // verus!
