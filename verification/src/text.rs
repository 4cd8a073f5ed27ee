//! Byte strings: character classes, case folding and substring search.

use vstd::prelude::*;

verus! {

/// `A` to `Z`.
pub open spec fn is_upper(b: u8) -> bool {
    0x41 <= b <= 0x5a
}

/// `a` to `z`.
pub open spec fn is_lower(b: u8) -> bool {
    0x61 <= b <= 0x7a
}

/// `0` to `9`.
pub open spec fn is_digit(b: u8) -> bool {
    0x30 <= b <= 0x39
}

/// An ASCII letter.
pub open spec fn is_letter(b: u8) -> bool {
    is_upper(b) || is_lower(b)
}

/// The underscore.
pub open spec fn is_underscore(b: u8) -> bool {
    b == 0x5f
}

/// A byte that may stand in an identifier: an ASCII letter, a digit or the underscore.
pub open spec fn is_name_byte(b: u8) -> bool {
    is_letter(b) || is_digit(b) || is_underscore(b)
}

/// The byte with an ASCII lower-case letter replaced by its capital.
pub open spec fn upper(b: u8) -> u8 {
    if is_lower(b) {
        (b - 0x20) as u8
    } else {
        b
    }
}

/// Equality of two bytes, up to ASCII case where `fold` is set.
pub open spec fn same_byte(a: u8, b: u8, fold: bool) -> bool {
    if fold {
        upper(a) == upper(b)
    } else {
        a == b
    }
}

/// Whether `needle` stands in `hay` at position `at`.
pub open spec fn occurs_at(hay: Seq<u8>, needle: Seq<u8>, at: int, fold: bool) -> bool {
    &&& 0 <= at
    &&& at + needle.len() <= hay.len()
    &&& forall|j: int| 0 <= j < needle.len() ==> same_byte(#[trigger] hay[at + j], needle[j], fold)
}

/// Whether `needle` stands somewhere in `hay`. The empty needle stands in every text.
pub open spec fn occurs_in(hay: Seq<u8>, needle: Seq<u8>, fold: bool) -> bool {
    exists|at: int| occurs_at(hay, needle, at, fold)
}

/// Whether the two texts are the same.
pub open spec fn same_text(a: Seq<u8>, b: Seq<u8>, fold: bool) -> bool {
    a.len() == b.len() && occurs_at(a, b, 0, fold)
}

/// The number of ASCII letters among the first `n` bytes of `text`.
pub open spec fn letters_in_first(text: Seq<u8>, n: int) -> nat
    decreases n,
{
    if n <= 0 {
        0
    } else {
        letters_in_first(text, n - 1) + if is_letter(text[n - 1]) {
            1nat
        } else {
            0nat
        }
    }
}

/// The number of ASCII letters in `text`.
pub open spec fn letter_count(text: Seq<u8>) -> nat {
    letters_in_first(text, text.len() as int)
}

/// At most `n` letters stand among the first `n` bytes.
pub proof fn lemma_letters_bounded(text: Seq<u8>, n: int)
    requires
        0 <= n,
    ensures
        letters_in_first(text, n) <= n,
    decreases n,
{
    if n > 0 {
        lemma_letters_bounded(text, n - 1);
    }
}

/// Whether `b` is an ASCII letter.
pub fn byte_is_letter(b: u8) -> (r: bool)
    ensures
        r == is_letter(b),
{
    (0x41 <= b && b <= 0x5a) || (0x61 <= b && b <= 0x7a)
}

/// Whether `b` is an ASCII lower-case letter.
pub fn byte_is_lower(b: u8) -> (r: bool)
    ensures
        r == is_lower(b),
{
    0x61 <= b && b <= 0x7a
}

/// Whether `b` may stand in an identifier.
pub fn byte_is_name(b: u8) -> (r: bool)
    ensures
        r == is_name_byte(b),
{
    byte_is_letter(b) || (0x30 <= b && b <= 0x39) || b == 0x5f
}

/// The capital of an ASCII lower-case letter, any other byte unchanged.
pub fn to_upper(b: u8) -> (r: u8)
    ensures
        r == upper(b),
{
    if 0x61 <= b && b <= 0x7a {
        b - 0x20
    } else {
        b
    }
}

/// Compares two bytes, up to ASCII case where `fold` is set.
pub fn bytes_match(a: u8, b: u8, fold: bool) -> (r: bool)
    ensures
        r == same_byte(a, b, fold),
{
    if fold {
        to_upper(a) == to_upper(b)
    } else {
        a == b
    }
}

/// Whether `needle` stands in `hay` at position `at`.
pub fn found_at(hay: &[u8], needle: &[u8], at: usize, fold: bool) -> (r: bool)
    ensures
        r == occurs_at(hay@, needle@, at as int, fold),
{
    if needle.len() > hay.len() || at > hay.len() - needle.len() {
        return false;
    }
    let mut j: usize = 0;
    while j < needle.len()
        invariant
            j <= needle.len(),
            at + needle.len() <= hay.len(),
            forall|k: int| 0 <= k < j ==> same_byte(#[trigger] hay@[at + k], needle@[k], fold),
        decreases needle.len() - j,
    {
        if !bytes_match(hay[at + j], needle[j], fold) {
            return false;
        }
        j = j + 1;
    }
    true
}

/// Whether `needle` stands somewhere in `hay`.
pub fn contains(hay: &[u8], needle: &[u8], fold: bool) -> (r: bool)
    ensures
        r == occurs_in(hay@, needle@, fold),
{
    if needle.len() > hay.len() {
        return false;
    }
    let last = hay.len() - needle.len();
    let mut at: usize = 0;
    while at <= last
        invariant
            at <= last + 1,
            last == hay.len() - needle.len(),
            forall|k: int| 0 <= k < at ==> !occurs_at(hay@, needle@, k, fold),
        decreases last + 1 - at,
    {
        if found_at(hay, needle, at, fold) {
            return true;
        }
        at = at + 1;
    }
    false
}

/// Whether the two texts are the same, up to ASCII case where `fold` is set.
pub fn equals(a: &[u8], b: &[u8], fold: bool) -> (r: bool)
    ensures
        r == same_text(a@, b@, fold),
{
    a.len() == b.len() && found_at(a, b, 0, fold)
}

} // verus!
