//! Reading the short pieces of text that a configuration holds.

use vstd::prelude::*;
use vstd::string::StringSliceAdditionalSpecFns;
use vstd::utf8::encode_utf8_decode_utf8;

verus! {

/// Whether two pieces of text are the same.
pub fn str_equal(a: &str, b: &str) -> (same: bool)
    ensures
        same == (a@ == b@),
{
    let left = a.as_bytes();
    let right = b.as_bytes();
    if left.len() != right.len() {
        return false;
    }
    let mut i: usize = 0;
    while i < left.len()
        invariant
            i <= left@.len(),
            left@ == a.spec_bytes(),
            right@ == b.spec_bytes(),
            left@.len() == right@.len(),
            left@.take(i as int) == right@.take(i as int),
        decreases left@.len() - i,
    {
        if left[i] != right[i] {
            return false;
        }
        assert(left@.take(i as int + 1) =~= left@.take(i as int).push(left@[i as int]));
        assert(right@.take(i as int + 1) =~= right@.take(i as int).push(right@[i as int]));
        i = i + 1;
    }
    proof {
        assert(left@ =~= left@.take(i as int));
        assert(right@ =~= right@.take(i as int));
        encode_utf8_decode_utf8(a@);
        encode_utf8_decode_utf8(b@);
    }
    true
}

/// Whether a byte is one of the ten decimal digits.
pub open spec fn is_digit(byte: u8) -> bool {
    48 <= byte <= 57
}

/// Whether all bytes are decimal digits.
pub open spec fn all_digits(text: Seq<u8>) -> bool {
    forall|i: int| 0 <= i < text.len() ==> is_digit(#[trigger] text[i])
}

/// The number that decimal digits stand for.
pub open spec fn digits_value(digits: Seq<u8>) -> int
    decreases digits.len(),
{
    if digits.len() == 0 {
        0
    } else {
        digits_value(digits.drop_last()) * 10 + (digits.last() - 48)
    }
}

/// The port that a piece of text stands for: it is made of one decimal
/// digit or more, and their number fits a port.
pub open spec fn port_of(text: Seq<u8>) -> Option<u16> {
    if text.len() > 0 && all_digits(text) && digits_value(text) <= u16::MAX {
        Some(digits_value(text) as u16)
    } else {
        None
    }
}

/// The place of the first byte of a text that is `byte`, or the length of
/// the text where there is none.
pub open spec fn first_of(text: Seq<u8>, byte: u8) -> int
    decreases text.len(),
{
    if text.len() == 0 || text[0] == byte {
        0
    } else {
        1 + first_of(text.skip(1), byte)
    }
}

/// Digits never stand for less than the digits they start with.
pub proof fn lemma_digits_value_grows(digits: Seq<u8>, start: int)
    requires
        all_digits(digits),
        0 <= start <= digits.len(),
    ensures
        0 <= digits_value(digits.take(start)) <= digits_value(digits),
    decreases digits.len() - start,
{
    if start == digits.len() {
        assert(digits.take(start) =~= digits);
        lemma_digits_value_nonnegative(digits);
    } else {
        lemma_digits_value_grows(digits, start + 1);
        let longer = digits.take(start + 1);
        assert(longer.drop_last() =~= digits.take(start));
        assert(is_digit(digits[start]));
        assert(longer.last() == digits[start]);
        lemma_digits_value_nonnegative(digits.take(start));
    }
}

/// Digits stand for no negative number.
pub proof fn lemma_digits_value_nonnegative(digits: Seq<u8>)
    requires
        all_digits(digits),
    ensures
        0 <= digits_value(digits),
    decreases digits.len(),
{
    if digits.len() > 0 {
        assert(is_digit(digits[digits.len() - 1]));
        lemma_digits_value_nonnegative(digits.drop_last());
    }
}

/// The first place of a byte lies within the text or at its end, holds
/// the byte where it lies within, and no place before it holds the byte.
pub proof fn lemma_first_of(text: Seq<u8>, byte: u8)
    ensures
        0 <= first_of(text, byte) <= text.len(),
        first_of(text, byte) < text.len() ==> text[first_of(text, byte)] == byte,
        forall|i: int| 0 <= i < first_of(text, byte) ==> text[i] != byte,
    decreases text.len(),
{
    if text.len() > 0 && text[0] != byte {
        let rest = text.skip(1);
        lemma_first_of(rest, byte);
        assert forall|i: int| 0 <= i < first_of(text, byte) implies text[i] != byte by {
            if i > 0 {
                assert(rest[i - 1] == text[i]);
            }
        }
    }
}

/// Where a place holds a byte and no place before it does, it is the
/// first place of that byte; where no place does, the first place is the
/// end of the text.
pub proof fn lemma_first_of_is(text: Seq<u8>, byte: u8, at: int)
    requires
        0 <= at <= text.len(),
        at < text.len() ==> text[at] == byte,
        forall|i: int| 0 <= i < at ==> text[i] != byte,
    ensures
        first_of(text, byte) == at,
{
    lemma_first_of(text, byte);
    let first = first_of(text, byte);
    if first < at {
        assert(text[first] == byte);
    }
}

/// Reads the port that the bytes from `start` up to `end` stand for.
pub fn parse_port(text: &[u8], start: usize, end: usize) -> (port: Option<u16>)
    requires
        start <= end <= text@.len(),
    ensures
        port == port_of(text@.subrange(start as int, end as int)),
{
    let ghost digits = text@.subrange(start as int, end as int);
    if start == end {
        return None;
    }
    let mut value: u32 = 0;
    let mut i: usize = start;
    assert(digits.take(0) =~= Seq::<u8>::empty());
    while i < end
        invariant
            start <= i <= end <= text@.len(),
            digits == text@.subrange(start as int, end as int),
            all_digits(digits.take(i - start)),
            value == digits_value(digits.take(i - start)),
            value <= u16::MAX,
        decreases end - i,
    {
        let byte = text[i];
        let ghost seen = digits.take(i - start);
        let ghost next = digits.take(i - start + 1);
        proof {
            assert(digits[i - start] == byte);
            assert(next.drop_last() =~= seen);
            assert(next.last() == byte);
        }
        if byte < 48 || byte > 57 {
            assert(!is_digit(digits[i - start]));
            return None;
        }
        let digit: u32 = (byte - 48) as u32;
        if value * 10 + digit > 65535 {
            proof {
                if all_digits(digits) {
                    lemma_digits_value_grows(digits, i - start + 1);
                }
            }
            return None;
        }
        value = value * 10 + digit;
        proof {
            assert forall|k: int| 0 <= k < next.len() implies is_digit(#[trigger] next[k]) by {
                if k < seen.len() {
                    assert(seen[k] == next[k]);
                }
            }
        }
        i = i + 1;
    }
    assert(digits.take(end - start) =~= digits);
    Some(value as u16)
}

/// Finds the first place of a byte in a text, or the end of the text.
pub fn find_first(text: &[u8], byte: u8) -> (at: usize)
    ensures
        at == first_of(text@, byte),
{
    let mut i: usize = 0;
    while i < text.len() && text[i] != byte
        invariant
            i <= text@.len(),
            forall|k: int| 0 <= k < i ==> text@[k] != byte,
        decreases text@.len() - i,
    {
        i = i + 1;
    }
    proof {
        lemma_first_of_is(text@, byte, i as int);
    }
    i
}

} // verus!
