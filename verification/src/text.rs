//! Numbers as decimal text.

use vstd::prelude::*;
use vstd::string::*;

verus! {

/// The character of one decimal digit.
pub open spec fn digit(d: nat) -> char {
    if d == 0 {
        '0'
    } else if d == 1 {
        '1'
    } else if d == 2 {
        '2'
    } else if d == 3 {
        '3'
    } else if d == 4 {
        '4'
    } else if d == 5 {
        '5'
    } else if d == 6 {
        '6'
    } else if d == 7 {
        '7'
    } else if d == 8 {
        '8'
    } else {
        '9'
    }
}

/// `n` in decimal digits, without leading zeros.
pub open spec fn decimal(n: nat) -> Seq<char>
    decreases n,
{
    if n < 10 {
        seq![digit(n)]
    } else {
        decimal(n / 10).push(digit(n % 10))
    }
}

/// `ms` milliseconds in seconds: the whole seconds, a point, and the three
/// digits of the milliseconds beyond them.
pub open spec fn seconds(ms: nat) -> Seq<char> {
    decimal(ms / 1000) + seq!['.', digit(ms / 100 % 10), digit(ms / 10 % 10), digit(ms % 10)]
}

/// One decimal digit as text.
fn digit_str(d: u64) -> (r: &'static str)
    requires
        d < 10,
    ensures
        r@ == seq![digit(d as nat)],
{
    proof {
        reveal_strlit("0");
        reveal_strlit("1");
        reveal_strlit("2");
        reveal_strlit("3");
        reveal_strlit("4");
        reveal_strlit("5");
        reveal_strlit("6");
        reveal_strlit("7");
        reveal_strlit("8");
        reveal_strlit("9");
    }
    let r = if d == 0 {
        "0"
    } else if d == 1 {
        "1"
    } else if d == 2 {
        "2"
    } else if d == 3 {
        "3"
    } else if d == 4 {
        "4"
    } else if d == 5 {
        "5"
    } else if d == 6 {
        "6"
    } else if d == 7 {
        "7"
    } else if d == 8 {
        "8"
    } else {
        "9"
    };
    r
}

/// Appends `n` in decimal digits to `text`.
pub fn push_decimal(text: &mut String, n: u64)
    ensures
        final(text)@ == old(text)@ + decimal(n as nat),
    decreases n,
{
    if n >= 10 {
        push_decimal(text, n / 10);
    }
    text.append(digit_str(n % 10));
}

/// Appends `ms` milliseconds in seconds to `text`, to the millisecond.
pub fn push_seconds(text: &mut String, ms: u64)
    ensures
        final(text)@ == old(text)@ + seconds(ms as nat),
{
    proof {
        reveal_strlit(".");
    }
    push_decimal(text, ms / 1000);
    text.append(".");
    text.append(digit_str(ms / 100 % 10));
    text.append(digit_str(ms / 10 % 10));
    text.append(digit_str(ms % 10));
    assert(final(text)@ =~= old(text)@ + seconds(ms as nat));
}

} // verus!
