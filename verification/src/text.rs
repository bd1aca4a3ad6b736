//! Text output with exact contents.

use vstd::prelude::*;
use vstd::string::*;

verus! {

/// The decimal digit `value`.
pub open spec fn digit(value: nat) -> char {
    (48 + value) as char
}

/// A number in decimal, without leading zeros.
pub open spec fn decimal(value: nat) -> Seq<char>
    decreases value,
{
    if value < 10 {
        seq![digit(value)]
    } else {
        decimal(value / 10).push(digit(value % 10))
    }
}

/// A number in octal, with leading zeros up to `width` digits.
pub open spec fn octal(value: nat, width: nat) -> Seq<char>
    decreases value + width,
{
    if value < 8 && width <= 1 {
        seq![digit(value)]
    } else {
        octal(
            value / 8,
            if width > 0 {
                (width - 1) as nat
            } else {
                0
            },
        ).push(digit(value % 8))
    }
}

/// Numbers in decimal, with a comma and a space between them.
pub open spec fn listed(values: Seq<u8>) -> Seq<char>
    decreases values.len(),
{
    if values.len() == 0 {
        Seq::empty()
    } else if values.len() == 1 {
        decimal(values[0] as nat)
    } else {
        listed(values.drop_last()) + ", "@ + decimal(values.last() as nat)
    }
}

/// `true` or `false`.
pub open spec fn truth(value: bool) -> Seq<char> {
    if value {
        "true"@
    } else {
        "false"@
    }
}

/// Appends a string.
pub fn push_text(target: &mut String, text: &str)
    ensures
        final(target)@ == old(target)@ + text@,
{
    target.append(text);
}

fn digit_text(value: u64) -> (text: &'static str)
    requires
        value < 10,
    ensures
        text@ == seq![digit(value as nat)],
{
    proof {
        reveal_strlit("0");
        reveal_strlit("1");
        reveal_strlit("2");
        reveal_strlit("3");
        reveal_strlit("4");
        reveal_strlit("5");
        reveal_strlit("6");
        reveal_strlit("7");
        reveal_strlit("8");
        reveal_strlit("9");
    }
    let text: &'static str = match value {
        0 => "0",
        1 => "1",
        2 => "2",
        3 => "3",
        4 => "4",
        5 => "5",
        6 => "6",
        7 => "7",
        8 => "8",
        _ => "9",
    };
    assert(text@ =~= seq![digit(value as nat)]);
    text
}

/// Appends a number in decimal.
pub fn push_decimal(target: &mut String, value: u64)
    ensures
        final(target)@ == old(target)@ + decimal(value as nat),
    decreases value,
{
    if value >= 10 {
        push_decimal(target, value / 10);
    }
    push_text(target, digit_text(value % 10));
    assert(target@ =~= old(target)@ + decimal(value as nat));
}

/// Appends a number in octal, with leading zeros up to `width` digits.
pub fn push_octal(target: &mut String, value: u64, width: u64)
    ensures
        final(target)@ == old(target)@ + octal(value as nat, width as nat),
    decreases value + width,
{
    if value >= 8 || width > 1 {
        let narrower: u64 = if width > 0 {
            width - 1
        } else {
            0
        };
        push_octal(target, value / 8, narrower);
    }
    push_text(target, digit_text(value % 8));
    assert(target@ =~= old(target)@ + octal(value as nat, width as nat));
}

/// Appends numbers in decimal, with a comma and a space between them.
pub fn push_listed(target: &mut String, values: &[u8])
    ensures
        final(target)@ == old(target)@ + listed(values@),
{
    let mut index: usize = 0;
    while index < values.len()
        invariant
            index <= values@.len(),
            target@ == old(target)@ + listed(values@.take(index as int)),
        decreases values@.len() - index,
    {
        if index > 0 {
            push_text(target, ", ");
        }
        push_decimal(target, values[index] as u64);
        proof {
            let longer = values@.take(index + 1);
            assert(longer.drop_last() =~= values@.take(index as int));
            assert(longer.last() == values@[index as int]);
            assert(target@ =~= old(target)@ + listed(longer));
        }
        index = index + 1;
    }
    assert(values@.take(index as int) =~= values@);
}

/// Appends a text and a number in decimal.
pub fn push_field(target: &mut String, text: &str, value: u64)
    ensures
        final(target)@ == old(target)@ + (text@ + decimal(value as nat)),
{
    push_text(target, text);
    push_decimal(target, value);
    assert(target@ =~= old(target)@ + (text@ + decimal(value as nat)));
}

/// Appends `true` or `false`.
pub fn push_truth(target: &mut String, value: bool)
    ensures
        final(target)@ == old(target)@ + truth(value),
{
    if value {
        push_text(target, "true");
    } else {
        push_text(target, "false");
    }
}

} // verus!
