//! Building human-readable text: appending to a string and writing numbers
//! in decimal.

use vstd::prelude::*;
use vstd::string::StringExecFns;

verus! {

/// Appends `tail` to `text`.
pub(crate) fn append(text: &mut String, tail: &str)
    ensures
        final(text)@ == old(text)@ + tail@,
{
    text.append(tail);
}

/// Appends one character to `text`, through `String::push`.
///
/// Trusted: `push` is documented to append the given character to the end of
/// the string, which is all this claims.
#[verifier::external_body]
pub(crate) fn append_char(text: &mut String, ch: char)
    ensures
        final(text)@ == old(text)@.push(ch),
{
    text.push(ch);
}

/// The decimal digit for `d`, which is below ten.
pub open spec fn digit_char(d: nat) -> char {
    if d == 0 {
        '0'
    } else if d == 1 {
        '1'
    } else if d == 2 {
        '2'
    } else if d == 3 {
        '3'
    } else if d == 4 {
        '4'
    } else if d == 5 {
        '5'
    } else if d == 6 {
        '6'
    } else if d == 7 {
        '7'
    } else if d == 8 {
        '8'
    } else {
        '9'
    }
}

/// `n` written in decimal, without leading zeros.
pub open spec fn decimal(n: nat) -> Seq<char>
    decreases n,
{
    if n < 10 {
        seq![digit_char(n)]
    } else {
        decimal(n / 10).push(digit_char(n % 10))
    }
}

fn digit(d: u64) -> (ch: char)
    requires
        d < 10,
    ensures
        ch == digit_char(d as nat),
{
    match d {
        0 => '0',
        1 => '1',
        2 => '2',
        3 => '3',
        4 => '4',
        5 => '5',
        6 => '6',
        7 => '7',
        8 => '8',
        _ => '9',
    }
}

/// Appends `n` in decimal to `text`.
pub fn append_decimal(text: &mut String, n: u64)
    ensures
        final(text)@ == old(text)@ + decimal(n as nat),
    decreases n,
{
    if n < 10 {
        append_char(text, digit(n));
        proof {
            assert(decimal(n as nat) =~= seq![digit_char(n as nat)]);
            assert(old(text)@.push(digit_char(n as nat)) =~= old(text)@ + seq![digit_char(n as nat)]);
        }
    } else {
        append_decimal(text, n / 10);
        let ghost middle = text@;
        append_char(text, digit(n % 10));
        proof {
            assert(text@ =~= old(text)@ + decimal(n as nat));
        }
    }
}

/// `n` written in decimal.
pub fn decimal_text(n: u64) -> (text: String)
    ensures
        text@ == decimal(n as nat),
{
    let mut text = String::new();
    append_decimal(&mut text, n);
    proof {
        assert(text@ =~= decimal(n as nat));
    }
    text
}

} // verus!
