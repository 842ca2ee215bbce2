//! Character-level text handling shared by the providers: conversion between
//! strings and character slices, trimming, and substring search.
//!
//! Text is modelled as `Seq<char>`, the view of `str` and `String`.

use vstd::prelude::*;
use vstd::slice::slice_subrange;

verus! {

/// Whether `c` counts as white space when text is trimmed.
pub uninterp spec fn is_white_space(c: char) -> bool;

/// `char::is_whitespace` reports whether a character has the Unicode
/// `White_Space` property. The answer depends on the character alone, so it is
/// given the name [`is_white_space`].
pub assume_specification[ char::is_whitespace ](c: char) -> (b: bool)
    ensures
        b == is_white_space(c),
;

/// `String::push` appends one character to the end of the string and leaves
/// the characters before it as they were.
pub assume_specification[ String::push ](s: &mut String, c: char)
    ensures
        final(s)@ == old(s)@.push(c),
;

/// Index of the first character at or after `from` that is not white space;
/// `s.len()` when there is none.
pub open spec fn first_non_space(s: Seq<char>, from: int) -> int
    decreases s.len() - from,
{
    if 0 <= from < s.len() && is_white_space(s[from]) {
        first_non_space(s, from + 1)
    } else {
        from
    }
}

/// One past the last character in `from..to` that is not white space; `from`
/// when there is none.
pub open spec fn last_non_space_end(s: Seq<char>, from: int, to: int) -> int
    decreases to - from,
{
    if from < to <= s.len() && is_white_space(s[to - 1]) {
        last_non_space_end(s, from, to - 1)
    } else {
        to
    }
}

/// `s` without its leading and trailing white space.
pub open spec fn trimmed(s: Seq<char>) -> Seq<char> {
    let start = first_non_space(s, 0);
    s.subrange(start, last_non_space_end(s, start, s.len() as int))
}

/// Whether `needle` stands in `hay` at index `at`.
pub open spec fn occurs_at(hay: Seq<char>, needle: Seq<char>, at: int) -> bool {
    &&& 0 <= at
    &&& at + needle.len() <= hay.len()
    &&& hay.subrange(at, at + needle.len()) == needle
}

/// Index of the first place at or after `from` where `needle` stands in
/// `hay`; `None` when there is no such place.
pub open spec fn first_occurrence(hay: Seq<char>, needle: Seq<char>, from: int) -> Option<int>
    decreases hay.len() + 1 - from,
{
    if from < 0 || from + needle.len() > hay.len() {
        None
    } else if occurs_at(hay, needle, from) {
        Some(from)
    } else {
        first_occurrence(hay, needle, from + 1)
    }
}

/// Whether `needle` stands somewhere in `hay`.
pub open spec fn contains(hay: Seq<char>, needle: Seq<char>) -> bool {
    exists|at: int| occurs_at(hay, needle, at)
}

/// Where `first_non_space` stops: inside the text, on a character that is
/// not white space, with only white space before it.
pub proof fn lemma_first_non_space(s: Seq<char>, from: int)
    requires
        0 <= from <= s.len(),
    ensures
        from <= first_non_space(s, from) <= s.len(),
        first_non_space(s, from) < s.len() ==> !is_white_space(s[first_non_space(s, from)]),
        forall|i: int| from <= i < first_non_space(s, from) ==> is_white_space(s[i]),
    decreases s.len() - from,
{
    if from < s.len() && is_white_space(s[from]) {
        lemma_first_non_space(s, from + 1);
    }
}

/// Where `last_non_space_end` stops: inside `from..to`, just behind a
/// character that is not white space, with only white space after it.
pub proof fn lemma_last_non_space_end(s: Seq<char>, from: int, to: int)
    requires
        0 <= from <= to <= s.len(),
    ensures
        from <= last_non_space_end(s, from, to) <= to,
        from < last_non_space_end(s, from, to) ==> !is_white_space(
            s[last_non_space_end(s, from, to) - 1],
        ),
        forall|i: int| last_non_space_end(s, from, to) <= i < to ==> is_white_space(s[i]),
    decreases to - from,
{
    if from < to && is_white_space(s[to - 1]) {
        lemma_last_non_space_end(s, from, to - 1);
    }
}

/// Trimmed text is a part of the text it came from, and where it is not
/// empty it neither starts nor ends with white space.
pub proof fn lemma_trimmed_is_tight(s: Seq<char>)
    ensures
        trimmed(s).len() <= s.len(),
        trimmed(s).len() > 0 ==> !is_white_space(trimmed(s).first()) && !is_white_space(
            trimmed(s).last(),
        ),
{
    lemma_first_non_space(s, 0);
    let start = first_non_space(s, 0);
    lemma_last_non_space_end(s, start, s.len() as int);
}

/// What `first_occurrence` finds is a place where the needle stands, with
/// no such place between `from` and it; and where it finds nothing, there
/// is no such place from `from` on.
pub proof fn lemma_first_occurrence(hay: Seq<char>, needle: Seq<char>, from: int)
    requires
        0 <= from,
    ensures
        match first_occurrence(hay, needle, from) {
            Some(at) => from <= at && occurs_at(hay, needle, at) && forall|j: int|
                from <= j < at ==> !occurs_at(hay, needle, j),
            None => forall|j: int| from <= j ==> !occurs_at(hay, needle, j),
        },
    decreases hay.len() + 1 - from,
{
    if from + needle.len() <= hay.len() && !occurs_at(hay, needle, from) {
        lemma_first_occurrence(hay, needle, from + 1);
    }
}

/// Text in which the needle stands nowhere has no first occurrence of it.
pub proof fn lemma_absent_has_no_occurrence(hay: Seq<char>, needle: Seq<char>)
    requires
        !contains(hay, needle),
    ensures
        first_occurrence(hay, needle, 0) is None,
{
    lemma_first_occurrence(hay, needle, 0);
}

/// The characters of `s`, in order.
pub fn to_chars(s: &str) -> (chars: Vec<char>)
    ensures
        chars@ == s@,
{
    let mut chars: Vec<char> = Vec::new();
    for c in it: s.chars()
        invariant
            chars@ == it.seq().take(it.index()),
    {
        chars.push(c);
    }
    chars
}

/// The string made of `chars`, in order.
pub fn to_text(chars: &[char]) -> (s: String)
    ensures
        s@ == chars@,
{
    let mut s = String::new();
    let mut i: usize = 0;
    while i < chars.len()
        invariant
            i <= chars@.len(),
            s@ == chars@.take(i as int),
        decreases chars@.len() - i,
    {
        s.push(chars[i]);
        i += 1;
    }
    s
}

/// Strips leading and trailing white space.
pub fn trim(chars: &[char]) -> (out: &[char])
    ensures
        out@ == trimmed(chars@),
{
    let n = chars.len();
    let mut start: usize = 0;
    while start < n && chars[start].is_whitespace()
        invariant
            n == chars@.len(),
            start <= n,
            first_non_space(chars@, 0) == first_non_space(chars@, start as int),
        decreases n - start,
    {
        start += 1;
    }
    let mut end: usize = n;
    while end > start && chars[end - 1].is_whitespace()
        invariant
            n == chars@.len(),
            start <= end <= n,
            last_non_space_end(chars@, start as int, n as int) == last_non_space_end(
                chars@,
                start as int,
                end as int,
            ),
        decreases end - start,
    {
        end -= 1;
    }
    slice_subrange(chars, start, end)
}

/// Whether `needle` stands in `hay` at index `at`.
pub fn matches_at(hay: &[char], needle: &[char], at: usize) -> (found: bool)
    ensures
        found == occurs_at(hay@, needle@, at as int),
{
    let n = hay.len();
    let m = needle.len();
    if at > n || m > n - at {
        return false;
    }
    let mut k: usize = 0;
    while k < m
        invariant
            n == hay@.len(),
            m == needle@.len(),
            at + m <= n,
            k <= m,
            forall|j: int| 0 <= j < k ==> hay@[at + j] == needle@[j],
        decreases m - k,
    {
        if hay[at + k] != needle[k] {
            assert(hay@.subrange(at as int, at + m)[k as int] == hay@[at + k]);
            return false;
        }
        k += 1;
    }
    assert(hay@.subrange(at as int, at + m) =~= needle@);
    true
}

/// Index of the first place at or after `from` where `needle` stands in
/// `hay`; `None` when there is no such place.
pub fn find(hay: &[char], needle: &[char], from: usize) -> (found: Option<usize>)
    ensures
        match found {
            Some(at) => first_occurrence(hay@, needle@, from as int) == Some(at as int),
            None => first_occurrence(hay@, needle@, from as int) is None,
        },
        match found {
            Some(at) => from <= at && occurs_at(hay@, needle@, at as int) && forall|j: int|
                from <= j < at ==> !occurs_at(hay@, needle@, j),
            None => forall|j: int| from <= j ==> !occurs_at(hay@, needle@, j),
        },
{
    let n = hay.len();
    let m = needle.len();
    proof {
        lemma_first_occurrence(hay@, needle@, from as int);
    }
    if from > n || m > n - from {
        return None;
    }
    let ghost first = first_occurrence(hay@, needle@, from as int);
    let last = n - m;
    let mut at: usize = from;
    while at < last
        invariant
            n == hay@.len(),
            m == needle@.len(),
            last == n - m,
            from <= at <= last,
            first == first_occurrence(hay@, needle@, from as int),
            first == first_occurrence(hay@, needle@, at as int),
            match first {
                Some(at) => from <= at && occurs_at(hay@, needle@, at) && forall|j: int|
                    from <= j < at ==> !occurs_at(hay@, needle@, j),
                None => forall|j: int| from <= j ==> !occurs_at(hay@, needle@, j),
            },
        decreases last - at,
    {
        if matches_at(hay, needle, at) {
            return Some(at);
        }
        at += 1;
    }
    if matches_at(hay, needle, last) {
        Some(last)
    } else {
        assert(first_occurrence(hay@, needle@, last + 1) is None);
        None
    }
}

} // verus!
