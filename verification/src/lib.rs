//! A simple library for reading hex colors.
//!
//! Every reader borrows a cursor over characters, takes the digits it needs
//! and leaves the cursor just past the last character it took. A reader that
//! fails has still taken the characters it looked at, the offending one
//! included, and says no more than that it failed: running out of input and
//! meeting a character that is no digit are not told apart.
//!
//! The contracts speak of a cursor through `remaining()`, the characters it
//! has yet to yield, and give both the result of a read and the characters it
//! leaves as functions of the characters it found; those functions are in
//! [`model`], and what holds of them is proved in [`lemmas`].

use std::str::Chars;
use vstd::prelude::*;
use vstd::std_specs::iter::IteratorSpec;

pub mod lemmas;
pub mod model;

use lemmas::lemma_read_in_two;
use model::{byte_read, digit_read, digit_value, rest, rgb_maybe_a_read, rgb_read, rgba_read};

verus! {

/// Converts a character into a u8 value.
///
/// The digits `0-9`, `A-F` and `a-f` give their value, 0 to 15; every other
/// character gives `None`.
pub fn char_to_hex(ch: char) -> (r: Option<u8>)
    ensures
        r == digit_value(ch),
{
    match ch {
        '0' => Some(0),
        '1' => Some(1),
        '2' => Some(2),
        '3' => Some(3),
        '4' => Some(4),
        '5' => Some(5),
        '6' => Some(6),
        '7' => Some(7),
        '8' => Some(8),
        '9' => Some(9),
        'A' | 'a' => Some(10),
        'B' | 'b' => Some(11),
        'C' | 'c' => Some(12),
        'D' | 'd' => Some(13),
        'E' | 'e' => Some(14),
        'F' | 'f' => Some(15),
        _ => None,
    }
}

/// Reads a hex value from an iterator of characters.
///
/// Takes the next character, if there is one, whether or not it is a digit,
/// and returns its value if it is.
pub fn hex(chars: &mut Chars) -> (r: Option<u8>)
    ensures
        r == digit_read((*old(chars)).remaining()),
        (*final(chars)).remaining() == rest((*old(chars)).remaining(), 1),
{
    match chars.next() {
        None => None,
        Some(ch) => char_to_hex(ch),
    }
}

/// Reads a pair of hex values, joining them in value range 0-255.
///
/// The first digit is the high half of the byte. The read stops at the first
/// character that is no digit, having taken it.
pub fn hex_pair(chars: &mut Chars) -> (r: Option<u8>)
    ensures
        r == byte_read((*old(chars)).remaining()),
        (*final(chars)).remaining() == rest((*old(chars)).remaining(), 2),
{
    proof {
        lemma_read_in_two((*chars).remaining(), 1, 1);
    }
    let h1: u8 = hex(chars)?;
    let h2: u8 = hex(chars)?;
    Some((h1 << 4) | h2)
}

/// Reads RGB colors from iterator of characters.
///
/// Red, green and blue are read in this order, a byte each. The read stops
/// at the first byte that fails.
pub fn rgb(chars: &mut Chars) -> (r: Option<[u8; 3]>)
    ensures
        r == rgb_read((*old(chars)).remaining()),
        (*final(chars)).remaining() == rest((*old(chars)).remaining(), 6),
{
    proof {
        let s = (*chars).remaining();
        lemma_read_in_two(s, 2, 4);
        lemma_read_in_two(rest(s, 2), 2, 2);
    }
    let red: u8 = hex_pair(chars)?;
    let green: u8 = hex_pair(chars)?;
    let blue: u8 = hex_pair(chars)?;
    Some([red, green, blue])
}

/// Reads RGBA colors from iterator of characters.
///
/// Red, green, blue and alpha are read in this order, a byte each. The read
/// stops at the first byte that fails.
pub fn rgba(chars: &mut Chars) -> (r: Option<[u8; 4]>)
    ensures
        r == rgba_read((*old(chars)).remaining()),
        (*final(chars)).remaining() == rest((*old(chars)).remaining(), 8),
{
    proof {
        let s = (*chars).remaining();
        lemma_read_in_two(s, 2, 6);
        lemma_read_in_two(rest(s, 2), 2, 4);
        lemma_read_in_two(rest(rest(s, 2), 2), 2, 2);
    }
    let red: u8 = hex_pair(chars)?;
    let green: u8 = hex_pair(chars)?;
    let blue: u8 = hex_pair(chars)?;
    let alpha: u8 = hex_pair(chars)?;
    Some([red, green, blue, alpha])
}

/// Reads RGB with optional alpha from iterator of characters.
///
/// Fails only where red, green and blue fail. After them one more byte is
/// tried as alpha; where that fails the color is returned without alpha, and
/// the cursor has moved as far as the failed attempt took it.
pub fn rgb_maybe_a(chars: &mut Chars) -> (r: Option<([u8; 3], Option<u8>)>)
    ensures
        r == rgb_maybe_a_read((*old(chars)).remaining()),
        (*final(chars)).remaining() == rest((*old(chars)).remaining(), 8),
{
    proof {
        lemma_read_in_two((*chars).remaining(), 6, 2);
    }
    let color: [u8; 3] = rgb(chars)?;
    let alpha: Option<u8> = hex_pair(chars);
    Some((color, alpha))
}

} // verus!
