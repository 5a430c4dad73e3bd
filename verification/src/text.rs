//! Character-level text operations: conversion between strings and character
//! sequences, case folding, whitespace, prefixes and substrings.

use vstd::prelude::*;

verus! {

/// The characters that `str::to_lowercase` yields for a text.
pub uninterp spec fn lowercase_of(text: Seq<char>) -> Seq<char>;

/// `str::to_lowercase` maps a text to its lowercase form; the result depends
/// on the characters of the text alone and is known here only by name.
pub assume_specification[ str::to_lowercase ](s: &str) -> (lowered: String)
    ensures
        lowered@ == lowercase_of(s@),
;

/// `String::push` appends one character to the end of the string.
pub assume_specification[ String::push ](s: &mut String, c: char)
    ensures
        final(s)@ == old(s)@.push(c),
;

/// The character sequences that a vector of character vectors holds.
pub open spec fn views_of(rows: Seq<Vec<char>>) -> Seq<Seq<char>> {
    rows.map_values(|row: Vec<char>| row@)
}

/// The characters of a text, in order.
pub fn chars_of(s: &str) -> (chars: Vec<char>)
    ensures
        chars@ == s@,
{
    let mut chars: Vec<char> = Vec::new();
    for c in it: s.chars()
        invariant
            chars@ == it.seq().take(it.index() as int),
            it.seq() == s@,
    {
        chars.push(c);
    }
    chars
}

/// The text made of the given characters, in order.
pub fn string_of(chars: &[char]) -> (s: String)
    ensures
        s@ == chars@,
{
    let mut s = String::new();
    let mut i: usize = 0;
    while i < chars.len()
        invariant
            i <= chars.len(),
            s@ == chars@.take(i as int),
        decreases chars.len() - i,
    {
        s.push(chars[i]);
        i += 1;
    }
    s
}

/// The lowercase form of a text, as characters.
pub fn lowered_chars(s: &str) -> (chars: Vec<char>)
    ensures
        chars@ == lowercase_of(s@),
{
    let lowered = s.to_lowercase();
    chars_of(lowered.as_str())
}

/// Whether a character has the Unicode property White_Space.
pub open spec fn is_white_space(c: char) -> bool {
    let code = c as u32;
    ||| 0x09 <= code <= 0x0D
    ||| code == 0x20
    ||| code == 0x85
    ||| code == 0xA0
    ||| code == 0x1680
    ||| 0x2000 <= code <= 0x200A
    ||| code == 0x2028
    ||| code == 0x2029
    ||| code == 0x202F
    ||| code == 0x205F
    ||| code == 0x3000
}

/// Decides whether a character is whitespace.
pub fn is_whitespace(c: char) -> (white: bool)
    ensures
        white == is_white_space(c),
{
    let code: u32 = c as u32;
    (0x09 <= code && code <= 0x0D) || code == 0x20 || code == 0x85 || code == 0xA0 || code == 0x1680
        || (0x2000 <= code && code <= 0x200A) || code == 0x2028 || code == 0x2029 || code == 0x202F
        || code == 0x205F || code == 0x3000
}

/// Whether `needle` stands in `text` at position `at`.
pub open spec fn occurs_at(text: Seq<char>, needle: Seq<char>, at: int) -> bool {
    &&& 0 <= at
    &&& at + needle.len() <= text.len()
    &&& text.subrange(at, at + needle.len()) == needle
}

/// Whether `text` begins with `prefix`.
pub open spec fn starts_with(text: Seq<char>, prefix: Seq<char>) -> bool {
    occurs_at(text, prefix, 0)
}

/// Whether `needle` stands somewhere in `text`.
pub open spec fn contains(text: Seq<char>, needle: Seq<char>) -> bool {
    exists|at: int| occurs_at(text, needle, at)
}

/// Compares `needle` with the characters of `text` from position `at` on.
pub fn matches_at(text: &[char], needle: &[char], at: usize) -> (found: bool)
    ensures
        found == occurs_at(text@, needle@, at as int),
{
    if needle.len() > text.len() || at > text.len() - needle.len() {
        return false;
    }
    let mut i: usize = 0;
    while i < needle.len()
        invariant
            i <= needle.len(),
            at + needle.len() <= text.len(),
            text@.subrange(at as int, at + i) == needle@.take(i as int),
        decreases needle.len() - i,
    {
        if text[at + i] != needle[i] {
            proof {
                let window = text@.subrange(at as int, at + needle.len());
                assert(window[i as int] == text@[at + i]);
            }
            return false;
        }
        proof {
            assert(text@.subrange(at as int, at + i + 1) == text@.subrange(at as int, at + i).push(
                text@[at + i],
            ));
            assert(needle@.take(i + 1) == needle@.take(i as int).push(needle@[i as int]));
        }
        i += 1;
    }
    proof {
        assert(needle@.take(needle.len() as int) == needle@);
    }
    true
}

/// Decides whether `text` begins with `prefix`.
pub fn has_prefix(text: &[char], prefix: &[char]) -> (found: bool)
    ensures
        found == starts_with(text@, prefix@),
{
    matches_at(text, prefix, 0)
}

/// Decides whether the two texts hold the same characters.
pub fn same_chars(left: &[char], right: &[char]) -> (same: bool)
    ensures
        same == (left@ == right@),
{
    if left.len() != right.len() {
        return false;
    }
    let found = matches_at(left, right, 0);
    proof {
        assert(left@.subrange(0, left.len() as int) == left@);
    }
    found
}

/// Decides whether `needle` stands somewhere in `text`.
pub fn has_substring(text: &[char], needle: &[char]) -> (found: bool)
    ensures
        found == contains(text@, needle@),
{
    if needle.len() > text.len() {
        return false;
    }
    let last: usize = text.len() - needle.len();
    let mut at: usize = 0;
    while at < last
        invariant
            at <= last,
            last == text.len() - needle.len(),
            needle.len() <= text.len(),
            forall|k: int| 0 <= k < at ==> !occurs_at(text@, needle@, k),
        decreases last - at,
    {
        if matches_at(text, needle, at) {
            return true;
        }
        at += 1;
    }
    matches_at(text, needle, last)
}

} // verus!
