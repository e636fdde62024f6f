//! Integers written in decimal.
use vstd::prelude::*;
use vstd::string::StringExecFns;

verus! {

/// The character that stands for the digit `digit`.
pub open spec fn digit_char(digit: nat) -> char
    recommends
        digit < 10,
{
    ('0' as u8 + digit) as char
}

/// The digits of `magnitude` in decimal, the most significant first.
pub open spec fn digits(magnitude: nat) -> Seq<char>
    decreases magnitude,
{
    if magnitude < 10 {
        seq![digit_char(magnitude)]
    } else {
        digits(magnitude / 10).push(digit_char(magnitude % 10))
    }
}

/// `value` in decimal: its digits, behind a minus sign where it is negative.
pub open spec fn decimal(value: int) -> Seq<char> {
    if value < 0 {
        seq!['-'] + digits((-value) as nat)
    } else {
        digits(value as nat)
    }
}

/// The text of one digit.
fn digit_str(digit: u32) -> (text: &'static str)
    requires
        digit < 10,
    ensures
        text@ == seq![digit_char(digit as nat)],
{
    proof {
        reveal_strlit("0");
        reveal_strlit("1");
        reveal_strlit("2");
        reveal_strlit("3");
        reveal_strlit("4");
        reveal_strlit("5");
        reveal_strlit("6");
        reveal_strlit("7");
        reveal_strlit("8");
        reveal_strlit("9");
    }
    let text = match digit {
        0 => "0",
        1 => "1",
        2 => "2",
        3 => "3",
        4 => "4",
        5 => "5",
        6 => "6",
        7 => "7",
        8 => "8",
        _ => "9",
    };
    assert(text@ =~= seq![digit_char(digit as nat)]);
    text
}

/// Appends the digits of `magnitude` to `text`.
fn push_digits(text: &mut String, magnitude: u32)
    ensures
        final(text)@ == old(text)@ + digits(magnitude as nat),
    decreases magnitude,
{
    if magnitude >= 10 {
        push_digits(text, magnitude / 10);
    }
    text.append(digit_str(magnitude % 10));
    assert(text@ =~= old(text)@ + digits(magnitude as nat));
}

/// Appends `value`, written in decimal, to `text`.
pub fn push_decimal(text: &mut String, value: i32)
    ensures
        final(text)@ == old(text)@ + decimal(value as int),
{
    if value < 0 {
        proof {
            reveal_strlit("-");
        }
        text.append("-");
        push_digits(text, (-(value as i64)) as u32);
        assert(text@ =~= old(text)@ + decimal(value as int));
    } else {
        push_digits(text, value as u32);
    }
}

} // verus!
