//! Facts about the model of reading, stated over sequences of characters.

use crate::model::{
    byte_read, consumed, digit_read, digit_run, digit_value, is_digit, join, rest,
    rgb_maybe_a_read, rgb_read, rgba_read,
};
use vstd::prelude::*;

verus! {

/// The sixteen digits have the values 0 to 15, the letters in either case,
/// and no other character is a digit.
pub proof fn lemma_digit_values()
    ensures
        digit_value('0') == Some(0u8),
        digit_value('1') == Some(1u8),
        digit_value('2') == Some(2u8),
        digit_value('3') == Some(3u8),
        digit_value('4') == Some(4u8),
        digit_value('5') == Some(5u8),
        digit_value('6') == Some(6u8),
        digit_value('7') == Some(7u8),
        digit_value('8') == Some(8u8),
        digit_value('9') == Some(9u8),
        digit_value('A') == Some(10u8) && digit_value('a') == Some(10u8),
        digit_value('B') == Some(11u8) && digit_value('b') == Some(11u8),
        digit_value('C') == Some(12u8) && digit_value('c') == Some(12u8),
        digit_value('D') == Some(13u8) && digit_value('d') == Some(13u8),
        digit_value('E') == Some(14u8) && digit_value('e') == Some(14u8),
        digit_value('F') == Some(15u8) && digit_value('f') == Some(15u8),
        forall|c: char|
            #![trigger is_digit(c)]
            is_digit(c) ==> {
                ||| c == '0' || c == '1' || c == '2' || c == '3' || c == '4'
                ||| c == '5' || c == '6' || c == '7' || c == '8' || c == '9'
                ||| c == 'A' || c == 'B' || c == 'C' || c == 'D' || c == 'E' || c == 'F'
                ||| c == 'a' || c == 'b' || c == 'c' || c == 'd' || c == 'e' || c == 'f'
            },
        forall|c: char| #![trigger is_digit(c)] is_digit(c) ==> digit_value(c)->0 < 16,
{
}

/// Joining two digit values gives sixteen times the first plus the second.
pub proof fn lemma_join_value(high: u8, low: u8)
    requires
        high < 16,
        low < 16,
    ensures
        join(high, low) == 16 * high + low,
{
    assert(((high << 4) | low) == 16 * high + low) by (bit_vector)
        requires
            high < 16,
            low < 16,
    ;
}

/// The leading digits of a sequence are its longest prefix made of digits:
/// they are digits, they are among its characters, and the character after
/// them, if there is one, is no digit.
pub proof fn lemma_digit_run_is_longest(s: Seq<char>)
    ensures
        digit_run(s) <= s.len(),
        forall|i: int| 0 <= i < digit_run(s) ==> is_digit(#[trigger] s[i]),
        digit_run(s) < s.len() ==> !is_digit(s[digit_run(s) as int]),
    decreases s.len(),
{
    if s.len() > 0 && is_digit(s[0]) {
        let t = s.skip(1);
        lemma_digit_run_is_longest(t);
        assert forall|i: int| 0 <= i < digit_run(s) implies is_digit(#[trigger] s[i]) by {
            if i > 0 {
                assert(s[i] == t[i - 1]);
            }
        }
    }
}

/// A sequence starts with at least `n` digits exactly when it has `n`
/// characters and its first `n` are digits.
pub proof fn lemma_starts_with_digits(s: Seq<char>, n: nat)
    ensures
        digit_run(s) >= n <==> s.len() >= n && forall|i: int|
            0 <= i < n ==> is_digit(#[trigger] s[i]),
    decreases n,
{
    lemma_digit_run_is_longest(s);
    if n > 0 && s.len() > 0 && is_digit(s[0]) {
        let t = s.skip(1);
        lemma_starts_with_digits(t, (n - 1) as nat);
        if t.len() >= n - 1 && forall|i: int| 0 <= i < n - 1 ==> is_digit(#[trigger] t[i]) {
            assert forall|i: int| 0 <= i < n implies is_digit(#[trigger] s[i]) by {
                if i > 0 {
                    assert(s[i] == t[i - 1]);
                }
            }
        }
        if s.len() >= n && forall|i: int| 0 <= i < n ==> is_digit(#[trigger] s[i]) {
            assert forall|i: int| 0 <= i < n - 1 implies is_digit(#[trigger] t[i]) by {
                assert(t[i] == s[i + 1]);
            }
        }
    }
}

/// Past `k` of its leading digits, a sequence starts with the others.
pub proof fn lemma_digit_run_skip(s: Seq<char>, k: nat)
    requires
        k <= digit_run(s),
    ensures
        digit_run(s.skip(k as int)) == digit_run(s) - k,
    decreases k,
{
    if k == 0 {
        assert(s.skip(0) =~= s);
    } else {
        lemma_digit_run_is_longest(s.skip(1));
        lemma_digit_run_skip(s.skip(1), (k - 1) as nat);
        assert(s.skip(1).skip(k - 1) =~= s.skip(k as int));
    }
}

/// A read never takes more characters than the digits it asks for, nor more
/// than there are, and what it leaves is the input without the characters
/// taken from its front: the cursor only moves forward. All that it takes
/// but the last are digits, and it takes all `n` exactly when it succeeds.
pub proof fn lemma_read_moves_forward(s: Seq<char>, n: nat)
    ensures
        consumed(s, n) <= n,
        consumed(s, n) <= s.len(),
        rest(s, n).len() == s.len() - consumed(s, n),
        forall|i: int|
            0 <= i < rest(s, n).len() ==> #[trigger] rest(s, n)[i] == s[consumed(s, n) + i],
        forall|i: int| 0 <= i < consumed(s, n) - 1 ==> is_digit(#[trigger] s[i]),
        digit_run(s) >= n <==> consumed(s, n) == n && forall|i: int|
            0 <= i < n ==> is_digit(#[trigger] s[i]),
{
    lemma_digit_run_is_longest(s);
    lemma_starts_with_digits(s, n);
}

/// A read of one digit takes the next character, digit or not, if there is one.
pub proof fn lemma_one_digit_takes_next(s: Seq<char>)
    ensures
        consumed(s, 1) == if s.len() > 0 { 1nat } else { 0nat },
        rest(s, 1) == if s.len() > 0 { s.skip(1) } else { s },
{
    lemma_digit_run_is_longest(s);
}

/// A read of `a + b` digits is a read of `a` digits and, where that succeeds,
/// a read of `b` digits from what it left.
pub proof fn lemma_read_in_two(s: Seq<char>, a: nat, b: nat)
    ensures
        digit_run(s) <= s.len(),
        digit_run(s) < a ==> {
            &&& consumed(s, a + b) == consumed(s, a)
            &&& rest(s, a + b) == rest(s, a)
        },
        digit_run(s) >= a ==> {
            &&& rest(s, a) == s.skip(a as int)
            &&& digit_run(rest(s, a)) == digit_run(s) - a
            &&& consumed(s, a + b) == a + consumed(rest(s, a), b)
            &&& rest(s, a + b) == rest(rest(s, a), b)
        },
{
    lemma_digit_run_is_longest(s);
    if digit_run(s) >= a {
        lemma_digit_run_skip(s, a);
        let t = s.skip(a as int);
        lemma_digit_run_is_longest(t);
        assert(t.skip(consumed(t, b) as int) =~= s.skip((a + consumed(t, b)) as int));
    }
}

/// Reading a byte is reading a digit and then another from what the first
/// read left; it fails as soon as one of them fails.
pub proof fn lemma_byte_is_two_digits(s: Seq<char>)
    ensures
        byte_read(s) == match digit_read(s) {
            Some(high) => match digit_read(rest(s, 1)) {
                Some(low) => Some(join(high, low)),
                None => None,
            },
            None => None,
        },
{
    lemma_read_in_two(s, 1, 1);
}

/// Reading red, green and blue is reading three bytes, each from what the
/// read before it left; it fails as soon as one of them fails.
pub proof fn lemma_rgb_is_three_bytes(s: Seq<char>)
    ensures
        rgb_read(s) == match byte_read(s) {
            Some(red) => match byte_read(rest(s, 2)) {
                Some(green) => match byte_read(rest(s, 4)) {
                    Some(blue) => Some([red, green, blue]),
                    None => None,
                },
                None => None,
            },
            None => None,
        },
{
    lemma_read_in_two(s, 2, 2);
    lemma_read_in_two(s, 4, 2);
}

/// Reading red, green, blue and alpha is reading red, green and blue and then
/// one more byte from what they left; it fails if either fails.
pub proof fn lemma_rgba_is_rgb_and_alpha(s: Seq<char>)
    ensures
        rgba_read(s) == match rgb_read(s) {
            Some(color) => match byte_read(rest(s, 6)) {
                Some(alpha) => Some([color[0], color[1], color[2], alpha]),
                None => None,
            },
            None => None,
        },
{
    lemma_read_in_two(s, 6, 2);
}

/// Reading with an optional alpha is reading red, green and blue and then
/// trying one more byte from what they left, whose failure is a missing alpha.
pub proof fn lemma_rgb_maybe_a_is_rgb_and_try(s: Seq<char>)
    ensures
        rgb_maybe_a_read(s) == match rgb_read(s) {
            Some(color) => Some((color, byte_read(rest(s, 6)))),
            None => None,
        },
{
    lemma_read_in_two(s, 6, 2);
}

/// Two digits and nothing else read as one byte, the first digit its high
/// half, and both characters are taken.
pub proof fn lemma_two_digits_make_a_byte(first: char, second: char)
    requires
        is_digit(first),
        is_digit(second),
    ensures
        byte_read(seq![first, second]) == Some(join(digit_value(first)->0, digit_value(second)->0)),
        join(digit_value(first)->0, digit_value(second)->0) == 16 * digit_value(first)->0
            + digit_value(second)->0,
        consumed(seq![first, second], 2) == 2,
        rest(seq![first, second], 2) == Seq::<char>::empty(),
{
    let s = seq![first, second];
    lemma_starts_with_digits(s, 2);
    lemma_join_value(digit_value(first)->0, digit_value(second)->0);
    assert(s.skip(2) =~= Seq::<char>::empty());
}

/// A single digit with nothing after it is no byte, and reading it as one
/// takes that one character.
pub proof fn lemma_lone_digit_is_no_byte(only: char)
    requires
        is_digit(only),
    ensures
        byte_read(seq![only]) is None,
        consumed(seq![only], 2) == 1,
        rest(seq![only], 2) == Seq::<char>::empty(),
{
    let s = seq![only];
    lemma_digit_run_is_longest(s);
    lemma_starts_with_digits(s, 1);
    assert(s.skip(1) =~= Seq::<char>::empty());
}

/// A reader succeeds exactly when the input starts with the digits it asks
/// for: two for a byte, six for a color, eight for a color with alpha. An
/// optional alpha is there exactly when eight digits are.
pub proof fn lemma_success_is_enough_digits(s: Seq<char>)
    ensures
        digit_read(s) is Some <==> s.len() >= 1 && is_digit(s[0]),
        byte_read(s) is Some <==> s.len() >= 2 && forall|i: int|
            0 <= i < 2 ==> is_digit(#[trigger] s[i]),
        rgb_read(s) is Some <==> s.len() >= 6 && forall|i: int|
            0 <= i < 6 ==> is_digit(#[trigger] s[i]),
        rgba_read(s) is Some <==> s.len() >= 8 && forall|i: int|
            0 <= i < 8 ==> is_digit(#[trigger] s[i]),
        rgb_maybe_a_read(s) is Some <==> rgb_read(s) is Some,
        rgb_maybe_a_read(s) matches Some(read) ==> (read.1 is Some <==> rgba_read(s) is Some),
{
    lemma_starts_with_digits(s, 2);
    lemma_starts_with_digits(s, 6);
    lemma_starts_with_digits(s, 8);
}

/// No reader succeeds on an input with fewer characters than the digits it
/// asks for.
pub proof fn lemma_short_input_fails(s: Seq<char>)
    ensures
        s.len() < 1 ==> digit_read(s) is None,
        s.len() < 2 ==> byte_read(s) is None,
        s.len() < 6 ==> rgb_read(s) is None && rgb_maybe_a_read(s) is None,
        s.len() < 8 ==> rgba_read(s) is None,
{
    lemma_digit_run_is_longest(s);
}

/// An empty input starts with no digit, so every read of at least one digit
/// fails on it, and no read takes anything from it.
pub proof fn lemma_nothing_from_empty(n: nat)
    ensures
        digit_run(Seq::<char>::empty()) == 0,
        consumed(Seq::<char>::empty(), n) == 0,
        rest(Seq::<char>::empty(), n) == Seq::<char>::empty(),
{
}

/// What a read returns and what it leaves depend on the characters under the
/// cursor alone: over two inputs that hold the same characters in the same
/// order, every reader returns the same result and leaves the same characters.
pub proof fn lemma_same_input_same_read(first: Seq<char>, second: Seq<char>)
    requires
        first.len() == second.len(),
        forall|i: int| 0 <= i < first.len() ==> first[i] == second[i],
    ensures
        digit_read(first) == digit_read(second),
        byte_read(first) == byte_read(second),
        rgb_read(first) == rgb_read(second),
        rgba_read(first) == rgba_read(second),
        rgb_maybe_a_read(first) == rgb_maybe_a_read(second),
        forall|n: nat| #[trigger] rest(first, n) == rest(second, n),
{
    assert(first =~= second);
}

} // verus!
