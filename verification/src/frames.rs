//! Names of the files that hold access units: which names count, and the
//! number in a name that gives an access unit its place in the sequence.

use vstd::prelude::*;
use vstd::string::*;

verus! {

/// Whether a name ends in `.ts`, as the file of an access unit does.
pub open spec fn is_frame_name(name: Seq<char>) -> bool {
    name.len() >= 3 && name[name.len() - 3] == '.' && name[name.len() - 2] == 't' && name[name.len()
        - 1] == 's'
}

/// Whether `.ts` stands at the start of `name`.
pub open spec fn starts_with_suffix(name: Seq<char>) -> bool {
    name.len() >= 3 && name[0] == '.' && name[1] == 't' && name[2] == 's'
}

/// `name` without any `.ts` in it, read from the left.
pub open spec fn without_suffix(name: Seq<char>) -> Seq<char>
    decreases name.len(),
{
    if name.len() == 0 {
        name
    } else if starts_with_suffix(name) {
        without_suffix(name.skip(3))
    } else {
        seq![name[0]] + without_suffix(name.skip(1))
    }
}

/// Value of a decimal digit, or `None` for any other character.
pub open spec fn digit_value(c: char) -> Option<nat> {
    if c == '0' {
        Some(0)
    } else if c == '1' {
        Some(1)
    } else if c == '2' {
        Some(2)
    } else if c == '3' {
        Some(3)
    } else if c == '4' {
        Some(4)
    } else if c == '5' {
        Some(5)
    } else if c == '6' {
        Some(6)
    } else if c == '7' {
        Some(7)
    } else if c == '8' {
        Some(8)
    } else if c == '9' {
        Some(9)
    } else {
        None
    }
}

/// Value of a run of decimal digits, or `None` where a character is no digit.
/// The empty run has the value zero.
pub open spec fn digits_value(digits: Seq<char>) -> Option<nat>
    decreases digits.len(),
{
    if digits.len() == 0 {
        Some(0)
    } else {
        match (digits_value(digits.drop_last()), digit_value(digits.last())) {
            (Some(front), Some(last)) => Some(front * 10 + last),
            _ => None,
        }
    }
}

/// The number that `text` is in decimal: a sign or none, then at least one
/// digit and nothing else, and a value that sixty-four bits with a sign hold.
pub open spec fn parse_i64(text: Seq<char>) -> Option<i64> {
    if text.len() == 0 {
        None
    } else if text[0] == '-' {
        match digits_value(text.skip(1)) {
            Some(value) => if text.len() > 1 && value <= 0x8000_0000_0000_0000 {
                Some((0 - value) as i64)
            } else {
                None
            },
            None => None,
        }
    } else {
        let digits = if text[0] == '+' {
            text.skip(1)
        } else {
            text
        };
        match digits_value(digits) {
            Some(value) => if digits.len() > 0 && value <= i64::MAX {
                Some(value as i64)
            } else {
                None
            },
            None => None,
        }
    }
}

/// The place of an access unit in the sequence, read out of the name of
/// its file: the number that is left when every `.ts` is taken out.
pub open spec fn frame_index(name: Seq<char>) -> Option<i64> {
    parse_i64(without_suffix(name))
}

/// The characters of `text`.
fn chars_of(text: &str) -> (chars: Vec<char>)
    ensures
        chars@ == text@,
{
    let len = text.unicode_len();
    let mut chars: Vec<char> = Vec::new();
    let mut i: usize = 0;
    while i < len
        invariant
            len == text@.len(),
            i <= len,
            chars@ == text@.take(i as int),
        decreases len - i,
    {
        chars.push(text.get_char(i));
        i += 1;
    }
    chars
}

/// Whether `name` ends in `.ts`.
pub fn has_frame_suffix(name: &str) -> (r: bool)
    ensures
        r == is_frame_name(name@),
{
    let chars = chars_of(name);
    let len = chars.len();
    len >= 3 && chars[len - 3] == '.' && chars[len - 2] == 't' && chars[len - 1] == 's'
}

/// `chars` without any `.ts` in them.
fn strip_suffix(chars: &Vec<char>) -> (rest: Vec<char>)
    ensures
        rest@ == without_suffix(chars@),
{
    let len = chars.len();
    let mut rest: Vec<char> = Vec::new();
    let mut i: usize = 0;
    assert(chars@.skip(0) == chars@);
    while i < len
        invariant
            len == chars@.len(),
            i <= len,
            rest@ + without_suffix(chars@.skip(i as int)) == without_suffix(chars@),
        decreases len - i,
    {
        let ghost tail = chars@.skip(i as int);
        if len - i >= 3 && chars[i] == '.' && chars[i + 1] == 't' && chars[i + 2] == 's' {
            assert(tail.skip(3) == chars@.skip(i + 3));
            i += 3;
        } else {
            assert(tail.skip(1) == chars@.skip(i + 1));
            rest.push(chars[i]);
            assert(rest@ + without_suffix(chars@.skip(i + 1)) =~= rest@.drop_last() + (seq![tail[0]]
                + without_suffix(tail.skip(1))));
            i += 1;
        }
    }
    rest
}

/// Value of a decimal digit.
fn digit_of(c: char) -> (r: Option<u64>)
    ensures
        match digit_value(c) {
            Some(value) => r == Some(value as u64),
            None => r is None,
        },
{
    if c == '0' {
        Some(0)
    } else if c == '1' {
        Some(1)
    } else if c == '2' {
        Some(2)
    } else if c == '3' {
        Some(3)
    } else if c == '4' {
        Some(4)
    } else if c == '5' {
        Some(5)
    } else if c == '6' {
        Some(6)
    } else if c == '7' {
        Some(7)
    } else if c == '8' {
        Some(8)
    } else if c == '9' {
        Some(9)
    } else {
        None
    }
}

/// A run that holds something that is no digit has no value, however it
/// goes on; and the value of a run of digits is at least that of each of
/// its beginnings.
proof fn lemma_digits_prefix(digits: Seq<char>, n: int)
    requires
        0 <= n <= digits.len(),
    ensures
        digits_value(digits.take(n)) is None ==> digits_value(digits) is None,
        digits_value(digits) matches Some(value) ==> digits_value(digits.take(n)) matches Some(
            front,
        )
            && front <= value,
    decreases digits.len(),
{
    if n < digits.len() {
        lemma_digits_prefix(digits.drop_last(), n);
        assert(digits.drop_last().take(n) == digits.take(n));
    } else {
        assert(digits.take(n) == digits);
    }
}

/// Value of the digits in `chars` from `start` on, where it is at most `limit`.
fn parse_digits(chars: &Vec<char>, start: usize, limit: u64) -> (r: Option<u64>)
    requires
        start <= chars@.len(),
        9 <= limit <= 0x8000_0000_0000_0000,
    ensures
        match digits_value(chars@.skip(start as int)) {
            Some(value) => if value <= limit {
                r == Some(value as u64)
            } else {
                r is None
            },
            None => r is None,
        },
{
    let len = chars.len();
    let ghost digits = chars@.skip(start as int);
    let mut value: u64 = 0;
    let mut i: usize = start;
    while i < len
        invariant
            len == chars@.len(),
            start <= i <= len,
            digits == chars@.skip(start as int),
            9 <= limit <= 0x8000_0000_0000_0000,
            digits_value(digits.take(i - start)) == Some(value as nat),
            value <= limit,
        decreases len - i,
    {
        proof {
            assert(digits.take(i - start + 1).drop_last() == digits.take(i - start));
            lemma_digits_prefix(digits, i - start + 1);
        }
        match digit_of(chars[i]) {
            Some(d) => {
                if value > (limit - d) / 10 {
                    return None;
                }
                value = value * 10 + d;
            },
            None => {
                return None;
            },
        }
        i += 1;
    }
    assert(digits.take(len - start) == digits);
    Some(value)
}

/// The number that `chars` are in decimal.
fn parse_number(chars: &Vec<char>) -> (r: Option<i64>)
    ensures
        r == parse_i64(chars@),
{
    let len = chars.len();
    if len == 0 {
        return None;
    }
    if chars[0] == '-' {
        match parse_digits(chars, 1, 0x8000_0000_0000_0000) {
            Some(value) => {
                if len == 1 {
                    None
                } else if value == 0x8000_0000_0000_0000 {
                    Some(i64::MIN)
                } else {
                    Some(0 - (value as i64))
                }
            },
            None => None,
        }
    } else {
        let start: usize = if chars[0] == '+' {
            1
        } else {
            0
        };
        assert(chars@.skip(0) == chars@);
        match parse_digits(chars, start, 0x7FFF_FFFF_FFFF_FFFF) {
            Some(value) => {
                if len == start {
                    None
                } else {
                    Some(value as i64)
                }
            },
            None => None,
        }
    }
}

/// Reads the place of an access unit out of the name of its file.
pub fn index_of_frame(name: &str) -> (r: Option<i64>)
    ensures
        r == frame_index(name@),
{
    let chars = chars_of(name);
    let digits = strip_suffix(&chars);
    parse_number(&digits)
}

} // verus!
