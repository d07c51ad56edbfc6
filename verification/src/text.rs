//! Building text: concatenation, decimal and hexadecimal numbers.

use vstd::prelude::*;

verus! {

/// The two texts, one after the other.
pub fn concat2(first: &str, second: &str) -> (text: String)
    ensures
        text@ == first@ + second@,
{
    let mut text = first.to_owned();
    text.append(second);
    text
}

/// The three texts, one after the other.
pub fn concat3(first: &str, second: &str, third: &str) -> (text: String)
    ensures
        text@ == first@ + second@ + third@,
{
    let mut text = concat2(first, second);
    text.append(third);
    text
}

/// The digit of `value`, which is below sixteen, in lower case.
pub open spec fn digit_char(value: nat) -> char {
    if value < 10 {
        (48 + value) as char
    } else {
        (87 + value) as char
    }
}

/// The digit of `value` in lower case.
pub fn digit(value: u8) -> (result: char)
    requires
        value < 16,
    ensures
        result == digit_char(value as nat),
{
    if value < 10 {
        (48 + value) as char
    } else {
        (87 + value) as char
    }
}

/// `value` in base ten without leading zeros.
pub open spec fn decimal(value: nat) -> Seq<char>
    decreases value,
{
    if value < 10 {
        seq![digit_char(value)]
    } else {
        decimal(value / 10).push(digit_char(value % 10))
    }
}

/// The text of a list of characters.
fn text_of(characters: &Vec<char>) -> (text: String)
    ensures
        text@ == characters@,
{
    let mut text = String::new();
    let mut index: usize = 0;
    while index < characters.len()
        invariant
            index <= characters@.len(),
            text@ == characters@.take(index as int),
        decreases characters@.len() - index,
    {
        push_char(&mut text, characters[index]);
        assert(characters@.take(index + 1) =~= characters@.take(index as int).push(
            characters@[index as int],
        ));
        index += 1;
    }
    assert(characters@.take(index as int) =~= characters@);
    text
}

/// `std::string::String::push`: the character is put at the end of the text.
#[verifier::external_body]
pub(crate) fn push_char(text: &mut String, character: char)
    ensures
        final(text)@ == old(text)@.push(character),
{
    text.push(character)
}

/// `value` in base ten without leading zeros.
pub fn decimal_text(value: u64) -> (text: String)
    ensures
        text@ == decimal(value as nat),
{
    let mut reversed: Vec<char> = Vec::new();
    let mut rest: u64 = value;
    while rest >= 10
        invariant
            decimal(rest as nat) + reversed@.reverse() == decimal(value as nat),
        decreases rest,
    {
        let low: u8 = (rest % 10) as u8;
        let ghost before = reversed@;
        reversed.push(digit(low));
        proof {
            assert(reversed@.reverse() =~= seq![digit_char(low as nat)] + before.reverse());
            assert(decimal((rest / 10) as nat) + reversed@.reverse() =~= decimal(rest as nat)
                + before.reverse());
        }
        rest = rest / 10;
    }
    let ghost before = reversed@;
    reversed.push(digit(rest as u8));
    assert(reversed@.reverse() =~= seq![digit_char(rest as nat)] + before.reverse());
    reverse(&mut reversed);
    text_of(&reversed)
}

/// Turns a list of characters round.
fn reverse(characters: &mut Vec<char>)
    ensures
        final(characters)@ == old(characters)@.reverse(),
{
    let mut turned: Vec<char> = Vec::new();
    let mut left: usize = characters.len();
    while left > 0
        invariant
            left <= characters@.len(),
            turned@ == characters@.skip(left as int).reverse(),
        decreases left,
    {
        left -= 1;
        turned.push(characters[left]);
        assert(characters@.skip(left as int).reverse() =~= characters@.skip(
            left + 1,
        ).reverse().push(characters@[left as int]));
    }
    assert(characters@.skip(0) =~= characters@);
    *characters = turned;
}

/// The last `width` hexadecimal digits of `value`, leading zeros kept.
pub open spec fn hexadecimal(value: nat, width: nat) -> Seq<char>
    decreases width,
{
    if width == 0 {
        Seq::empty()
    } else {
        hexadecimal(value / 16, (width - 1) as nat).push(digit_char(value % 16))
    }
}

/// The last `width` hexadecimal digits of `value`, leading zeros kept.
pub fn hexadecimal_text(value: u32, width: u32) -> (text: String)
    ensures
        text@ == hexadecimal(value as nat, width as nat),
{
    let mut reversed: Vec<char> = Vec::new();
    let mut rest: u32 = value;
    let mut left: u32 = width;
    while left > 0
        invariant
            hexadecimal(rest as nat, left as nat) + reversed@.reverse() == hexadecimal(
                value as nat,
                width as nat,
            ),
        decreases left,
    {
        let low: u8 = (rest % 16) as u8;
        let ghost before = reversed@;
        reversed.push(digit(low));
        proof {
            assert(reversed@.reverse() =~= seq![digit_char(low as nat)] + before.reverse());
            assert(hexadecimal((rest / 16) as nat, (left - 1) as nat) + reversed@.reverse()
                =~= hexadecimal(rest as nat, left as nat) + before.reverse());
        }
        rest = rest / 16;
        left -= 1;
    }
    assert(hexadecimal(rest as nat, 0) + reversed@.reverse() =~= reversed@.reverse());
    reverse(&mut reversed);
    text_of(&reversed)
}

/// No two numbers have the same decimal text.
pub proof fn decimal_is_injective(first: nat, second: nat)
    requires
        decimal(first) == decimal(second),
    ensures
        first == second,
    decreases first,
{
    assert(decimal(first).last() == digit_char(first % 10));
    assert(decimal(second).last() == digit_char(second % 10));
    if first < 10 {
        if second >= 10 {
            decimal_is_not_empty(second / 10);
        }
    } else if second < 10 {
        decimal_is_not_empty(first / 10);
    } else {
        assert(decimal(first).drop_last() =~= decimal(first / 10));
        assert(decimal(second).drop_last() =~= decimal(second / 10));
        decimal_is_injective(first / 10, second / 10);
    }
}

/// A number has at least one decimal digit.
pub proof fn decimal_is_not_empty(value: nat)
    ensures
        decimal(value).len() > 0,
{
}

/// Whether the two texts are the same.
pub fn same_text(left: &str, right: &str) -> (result: bool)
    ensures
        result == (left@ == right@),
{
    left.to_owned() == right.to_owned()
}

/// Whether the two byte strings are the same.
pub fn same_bytes(left: &[u8], right: &[u8]) -> (result: bool)
    ensures
        result == (left@ == right@),
{
    if left.len() != right.len() {
        return false;
    }
    let mut index: usize = 0;
    while index < left.len()
        invariant
            left@.len() == right@.len(),
            index <= left@.len(),
            forall|i: int| 0 <= i < index ==> left@[i] == right@[i],
        decreases left@.len() - index,
    {
        if left[index] != right[index] {
            return false;
        }
        index += 1;
    }
    assert(left@ =~= right@);
    true
}

} // verus!
