//! Numbers written in base two.

use vstd::prelude::*;
use vstd::string::StringExecFns;

verus! {

/// The digit for `bit`.
pub open spec fn digit(bit: nat) -> char {
    if bit == 0 {
        '0'
    } else {
        '1'
    }
}

/// `number` in base two, without leading zeros.
pub open spec fn digits(number: nat) -> Seq<char>
    decreases number,
{
    if number < 2 {
        seq![digit(number)]
    } else {
        digits(number / 2).push(digit(number % 2))
    }
}

/// `number` in base two, with as many leading zeros as it takes to make `width` digits.
pub open spec fn padded_digits(number: nat, width: nat) -> Seq<char> {
    let missing = width - digits(number).len();
    Seq::new(if missing > 0 { missing as nat } else { 0 }, |i: int| '0') + digits(number)
}

/// How many digits `number` has in base two, without leading zeros.
fn count_digits(number: usize) -> (count: usize)
    ensures
        count == digits(number as nat).len(),
{
    let mut count: usize = 1;
    let mut rest = number;
    while rest >= 2
        invariant
            count + digits(rest as nat).len() == digits(number as nat).len() + 1,
            count + rest <= number + 1,
        decreases rest,
    {
        rest = rest / 2;
        count = count + 1;
    }
    count
}

/// Writes `number` in base two at the end of `text`.
fn append_digits(text: &mut String, number: usize)
    ensures
        final(text)@ == old(text)@ + digits(number as nat),
    decreases number,
{
    proof {
        reveal_strlit("0");
        reveal_strlit("1");
    }
    if number >= 2 {
        append_digits(text, number / 2);
    }
    if number % 2 == 0 {
        text.append("0");
    } else {
        text.append("1");
    }
    assert(text@ == old(text)@ + digits(number as nat));
}

/// Writes `number` in base two at the end of `text`, with as many leading zeros as it takes to
/// make `width` digits.
pub fn append_padded(text: &mut String, number: usize, width: usize)
    ensures
        final(text)@ == old(text)@ + padded_digits(number as nat, width as nat),
{
    let count = count_digits(number);
    let missing: usize = if count < width {
        width - count
    } else {
        0
    };
    let mut written: usize = 0;
    while written < missing
        invariant
            written <= missing,
            text@ == old(text)@ + Seq::new(written as nat, |i: int| '0'),
        decreases missing - written,
    {
        proof {
            reveal_strlit("0");
        }
        text.append("0");
        written = written + 1;
    }
    append_digits(text, number);
}

} // verus!
