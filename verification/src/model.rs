//! The mathematical model of reading: what a read returns and how many
//! characters it takes, as functions of the characters under the cursor.
//!
//! A cursor is modelled by the sequence of characters it has not yet yielded.
//! Every reader asks for a fixed number of hexadecimal digits and takes
//! characters one at a time until it has them all or meets a character that is
//! not a digit (which it takes too) or the end of the input.

use vstd::prelude::*;

verus! {

/// The value of a hexadecimal digit, in either case; `None` for every other character.
pub open spec fn digit_value(c: char) -> Option<u8> {
    if '0' <= c <= '9' {
        Some((c as int - '0' as int) as u8)
    } else if 'A' <= c <= 'F' {
        Some((c as int - 'A' as int + 10) as u8)
    } else if 'a' <= c <= 'f' {
        Some((c as int - 'a' as int + 10) as u8)
    } else {
        None
    }
}

/// Whether `c` is one of `0-9`, `A-F`, `a-f`.
pub open spec fn is_digit(c: char) -> bool {
    digit_value(c) is Some
}

/// Two digit values joined into one byte, the first as the high half.
pub open spec fn join(high: u8, low: u8) -> u8 {
    (high << 4) | low
}

/// The number of hexadecimal digits that `s` starts with.
pub open spec fn digit_run(s: Seq<char>) -> nat
    decreases s.len(),
{
    if s.len() > 0 && is_digit(s[0]) {
        1 + digit_run(s.skip(1))
    } else {
        0
    }
}

/// The number of characters that a read of `n` digits takes from `s`: all `n`
/// where `s` starts with that many digits; otherwise the digits that `s`
/// starts with and the character after them, if there is one.
pub open spec fn consumed(s: Seq<char>, n: nat) -> nat {
    if digit_run(s) >= n {
        n
    } else if digit_run(s) < s.len() {
        digit_run(s) + 1
    } else {
        s.len()
    }
}

/// What a read of `n` digits leaves of `s`.
pub open spec fn rest(s: Seq<char>, n: nat) -> Seq<char> {
    s.skip(consumed(s, n) as int)
}

/// The byte written by the two digits at positions `i` and `i + 1` of `s`.
pub open spec fn byte_at(s: Seq<char>, i: int) -> u8 {
    join(digit_value(s[i])->0, digit_value(s[i + 1])->0)
}

/// The result of reading one digit from `s`.
pub open spec fn digit_read(s: Seq<char>) -> Option<u8> {
    if s.len() > 0 {
        digit_value(s[0])
    } else {
        None
    }
}

/// The result of reading one byte, written as two digits, from `s`.
pub open spec fn byte_read(s: Seq<char>) -> Option<u8> {
    if digit_run(s) >= 2 {
        Some(byte_at(s, 0))
    } else {
        None
    }
}

/// The result of reading red, green and blue from `s`.
pub open spec fn rgb_read(s: Seq<char>) -> Option<[u8; 3]> {
    if digit_run(s) >= 6 {
        Some([byte_at(s, 0), byte_at(s, 2), byte_at(s, 4)])
    } else {
        None
    }
}

/// The result of reading red, green, blue and alpha from `s`.
pub open spec fn rgba_read(s: Seq<char>) -> Option<[u8; 4]> {
    if digit_run(s) >= 8 {
        Some([byte_at(s, 0), byte_at(s, 2), byte_at(s, 4), byte_at(s, 6)])
    } else {
        None
    }
}

/// The result of reading red, green and blue from `s`, and alpha if two more
/// digits follow them. A missing or broken alpha is no failure.
pub open spec fn rgb_maybe_a_read(s: Seq<char>) -> Option<([u8; 3], Option<u8>)> {
    match rgb_read(s) {
        Some(color) => Some((color, if digit_run(s) >= 8 { Some(byte_at(s, 6)) } else { None })),
        None => None,
    }
}

} // verus!
