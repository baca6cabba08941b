//! The format of a peer's host address.
//!
//! A peer is named by an IPv4 address in dotted decimal: four numbers from 0
//! to 255, each written without a sign and without leading zeros, with a dot
//! between one and the next. The port is not part of it: every node listens
//! on the same one.

use vstd::prelude::*;
use vstd::string::StrSliceExecFns;

verus! {

/// The port on which every node listens.
pub const LISTENING_PORT: u16 = 10000;

/// The character for a value from 0 to 9.
pub open spec fn digit(value: int) -> char {
    ('0' as int + value) as char
}

/// Whether `c` is one of the ten decimal digits.
pub open spec fn is_digit(c: char) -> bool {
    '0' <= c <= '9'
}

/// A number from 0 to 255 in decimal, without leading zeros.
pub open spec fn decimal(value: u8) -> Seq<char> {
    if value < 10 {
        seq![digit(value as int)]
    } else if value < 100 {
        seq![digit(value as int / 10), digit(value as int % 10)]
    } else {
        seq![digit(value as int / 100), digit(value as int / 10 % 10), digit(value as int % 10)]
    }
}

/// Four numbers in dotted decimal.
pub open spec fn dotted(a: u8, b: u8, c: u8, d: u8) -> Seq<char> {
    decimal(a) + seq!['.'] + decimal(b) + seq!['.'] + decimal(c) + seq!['.'] + decimal(d)
}

/// Whether `text` is a host address: the dotted decimal of some four numbers.
pub open spec fn is_host(text: Seq<char>) -> bool {
    exists|a: u8, b: u8, c: u8, d: u8| text == #[trigger] dotted(a, b, c, d)
}

/// A number found in a text, and the position after its last digit.
ghost struct Reading {
    value: u8,
    after: int,
}

/// The number that starts at `start` in `text`, as a reader that goes left to
/// right finds it: as many digits as there are, three at most.
spec fn octet_at(text: Seq<char>, start: int) -> Option<Reading> {
    if !(0 <= start < text.len()) || !is_digit(text[start]) {
        None
    } else {
        let high = text[start] as int - '0' as int;
        if start + 1 < text.len() && is_digit(text[start + 1]) {
            let middle = text[start + 1] as int - '0' as int;
            if high == 0 {
                None
            } else if start + 2 < text.len() && is_digit(text[start + 2]) {
                let low = text[start + 2] as int - '0' as int;
                let value = high * 100 + middle * 10 + low;
                if value > 255 {
                    None
                } else {
                    Some(Reading { value: value as u8, after: start + 3 })
                }
            } else {
                Some(Reading { value: (high * 10 + middle) as u8, after: start + 2 })
            }
        } else {
            Some(Reading { value: high as u8, after: start + 1 })
        }
    }
}

/// Whether a dot stands at `at` in `text`.
spec fn dot_at(text: Seq<char>, at: int) -> bool {
    0 <= at < text.len() && text[at] == '.'
}

/// The four numbers of `text`, as a reader that goes left to right finds
/// them.
spec fn host_numbers(text: Seq<char>) -> Option<(u8, u8, u8, u8)> {
    let first = octet_at(text, 0);
    if first is None || !dot_at(text, first->0.after) {
        None
    } else {
        let second = octet_at(text, first->0.after + 1);
        if second is None || !dot_at(text, second->0.after) {
            None
        } else {
            let third = octet_at(text, second->0.after + 1);
            if third is None || !dot_at(text, third->0.after) {
                None
            } else {
                let fourth = octet_at(text, third->0.after + 1);
                if fourth is None || fourth->0.after != text.len() {
                    None
                } else {
                    Some((first->0.value, second->0.value, third->0.value, fourth->0.value))
                }
            }
        }
    }
}

/// What the reader finds at `start` is written there in decimal.
proof fn lemma_octet_sound(text: Seq<char>, start: int)
    requires
        octet_at(text, start) is Some,
    ensures
        0 <= start < octet_at(text, start)->0.after <= text.len(),
        text.subrange(start, octet_at(text, start)->0.after) == decimal(
            octet_at(text, start)->0.value,
        ),
{
    let found = octet_at(text, start)->0;
    assert(text.subrange(start, found.after) =~= decimal(found.value));
}

/// A number written in decimal at `start`, with no digit after it, is what
/// the reader finds there.
proof fn lemma_octet_complete(text: Seq<char>, start: int, value: u8)
    requires
        0 <= start,
        start + decimal(value).len() <= text.len(),
        text.subrange(start, start + decimal(value).len()) == decimal(value),
        start + decimal(value).len() == text.len() || !is_digit(
            text[start + decimal(value).len()],
        ),
    ensures
        octet_at(text, start) == Some(
            Reading { value, after: start + decimal(value).len() },
        ),
{
    let written = text.subrange(start, start + decimal(value).len());
    assert(written[0] == text[start]);
    if value >= 10 {
        assert(written[1] == text[start + 1]);
    }
    if value >= 100 {
        assert(written[2] == text[start + 2]);
    }
}

/// What the reader finds in `text` is written there in dotted decimal.
proof fn lemma_host_sound(text: Seq<char>)
    requires
        host_numbers(text) is Some,
    ensures
        ({
            let numbers = host_numbers(text)->0;
            text == dotted(numbers.0, numbers.1, numbers.2, numbers.3)
        }),
{
    let first = octet_at(text, 0)->0;
    lemma_octet_sound(text, 0);
    let second = octet_at(text, first.after + 1)->0;
    lemma_octet_sound(text, first.after + 1);
    let third = octet_at(text, second.after + 1)->0;
    lemma_octet_sound(text, second.after + 1);
    let fourth = octet_at(text, third.after + 1)->0;
    lemma_octet_sound(text, third.after + 1);
    assert(text =~= text.subrange(0, first.after) + seq!['.'] + text.subrange(
        first.after + 1,
        second.after,
    ) + seq!['.'] + text.subrange(second.after + 1, third.after) + seq!['.'] + text.subrange(
        third.after + 1,
        fourth.after,
    ));
}

/// Four numbers in dotted decimal are what the reader finds.
proof fn lemma_host_complete(a: u8, b: u8, c: u8, d: u8)
    ensures
        host_numbers(dotted(a, b, c, d)) == Some((a, b, c, d)),
{
    let text = dotted(a, b, c, d);
    let after_a = decimal(a).len() as int;
    let after_b = after_a + 1 + decimal(b).len();
    let after_c = after_b + 1 + decimal(c).len();
    let after_d = after_c + 1 + decimal(d).len();
    assert(text.len() == after_d);
    assert(text[after_a] == '.');
    assert(text[after_b] == '.');
    assert(text[after_c] == '.');
    assert(text.subrange(0, after_a) =~= decimal(a));
    assert(text.subrange(after_a + 1, after_b) =~= decimal(b));
    assert(text.subrange(after_b + 1, after_c) =~= decimal(c));
    assert(text.subrange(after_c + 1, after_d) =~= decimal(d));
    lemma_octet_complete(text, 0, a);
    lemma_octet_complete(text, after_a + 1, b);
    lemma_octet_complete(text, after_b + 1, c);
    lemma_octet_complete(text, after_c + 1, d);
}

/// Different numbers are written differently: a host address names its four
/// numbers.
pub proof fn lemma_dotted_unique(first: (u8, u8, u8, u8), second: (u8, u8, u8, u8))
    requires
        dotted(first.0, first.1, first.2, first.3) == dotted(
            second.0,
            second.1,
            second.2,
            second.3,
        ),
    ensures
        first == second,
{
    lemma_host_complete(first.0, first.1, first.2, first.3);
    lemma_host_complete(second.0, second.1, second.2, second.3);
}

/// The value of a decimal digit, or nothing for any other character.
fn digit_value(c: char) -> (value: Option<u8>)
    ensures
        is_digit(c) ==> value == Some((c as int - '0' as int) as u8),
        !is_digit(c) ==> value is None,
{
    if '0' <= c && c <= '9' {
        Some((c as u32 - '0' as u32) as u8)
    } else {
        None
    }
}

/// The digit at `at`, if `at` is inside `text` and a digit stands there.
fn digit_in(text: &str, length: usize, at: usize) -> (value: Option<u8>)
    requires
        length == text@.len(),
    ensures
        at < length && is_digit(text@[at as int]) ==> value == Some(
            (text@[at as int] as int - '0' as int) as u8,
        ),
        !(at < length && is_digit(text@[at as int])) ==> value is None,
{
    if at < length {
        digit_value(text.get_char(at))
    } else {
        None
    }
}

/// Reads the number that starts at `start`.
fn read_octet(text: &str, length: usize, start: usize) -> (found: Option<(u8, usize)>)
    requires
        length == text@.len(),
        start <= length,
    ensures
        match found {
            Some(found) => octet_at(text@, start as int) == Some(
                Reading { value: found.0, after: found.1 as int },
            ),
            None => octet_at(text@, start as int) is None,
        },
{
    let high = match digit_in(text, length, start) {
        Some(high) => high,
        None => {
            return None;
        },
    };
    let middle = match digit_in(text, length, start + 1) {
        Some(middle) => middle,
        None => {
            return Some((high, start + 1));
        },
    };
    if high == 0 {
        return None;
    }
    let low = match digit_in(text, length, start + 2) {
        Some(low) => low,
        None => {
            return Some((high * 10 + middle, start + 2));
        },
    };
    let value: u16 = high as u16 * 100 + middle as u16 * 10 + low as u16;
    if value > 255 {
        None
    } else {
        Some((value as u8, start + 3))
    }
}

/// Whether a dot stands at `at`.
fn read_dot(text: &str, length: usize, at: usize) -> (found: bool)
    requires
        length == text@.len(),
    ensures
        found == dot_at(text@, at as int),
{
    at < length && text.get_char(at) == '.'
}

/// The four numbers of a host address, or nothing when `text` is not one.
pub fn parse_host(text: &str) -> (numbers: Option<(u8, u8, u8, u8)>)
    ensures
        match numbers {
            Some(numbers) => text@ == dotted(numbers.0, numbers.1, numbers.2, numbers.3),
            None => !is_host(text@),
        },
{
    let length = text.unicode_len();
    proof {
        if host_numbers(text@) is Some {
            lemma_host_sound(text@);
        } else {
            assert forall|a: u8, b: u8, c: u8, d: u8| text@ != #[trigger] dotted(a, b, c, d) by {
                lemma_host_complete(a, b, c, d);
            }
        }
    }
    let (a, after_a) = match read_octet(text, length, 0) {
        Some(found) => found,
        None => {
            return None;
        },
    };
    if !read_dot(text, length, after_a) {
        return None;
    }
    let (b, after_b) = match read_octet(text, length, after_a + 1) {
        Some(found) => found,
        None => {
            return None;
        },
    };
    if !read_dot(text, length, after_b) {
        return None;
    }
    let (c, after_c) = match read_octet(text, length, after_b + 1) {
        Some(found) => found,
        None => {
            return None;
        },
    };
    if !read_dot(text, length, after_c) {
        return None;
    }
    let (d, after_d) = match read_octet(text, length, after_c + 1) {
        Some(found) => found,
        None => {
            return None;
        },
    };
    if after_d != length {
        return None;
    }
    Some((a, b, c, d))
}

} // verus!
