//! Text as sequences of characters: conversion from and to strings, and
//! searching and replacing literal patterns.
//!
//! Every contract in the crate speaks of text as `Seq<char>`, the view of
//! `str` and `String`.  Executable code works on `[char]`, where an index is
//! a character position.

use vstd::prelude::*;

verus! {

/// `pattern` stands in `text` at position `at`.
pub open spec fn occurs_at(text: Seq<char>, pattern: Seq<char>, at: int) -> bool {
    &&& 0 <= at
    &&& at + pattern.len() <= text.len()
    &&& text.subrange(at, at + pattern.len()) == pattern
}

/// `pattern` stands somewhere in `text`.
pub open spec fn contains(text: Seq<char>, pattern: Seq<char>) -> bool {
    exists|at: int| occurs_at(text, pattern, at)
}

/// `text` begins with `prefix`.
pub open spec fn starts_with(text: Seq<char>, prefix: Seq<char>) -> bool {
    occurs_at(text, prefix, 0)
}

/// `text` ends with `suffix`.
pub open spec fn ends_with(text: Seq<char>, suffix: Seq<char>) -> bool {
    occurs_at(text, suffix, text.len() - suffix.len())
}

/// `at` is the first position from `from` on at which `pattern` stands in
/// `text`.
pub open spec fn first_occurrence(text: Seq<char>, pattern: Seq<char>, from: int, at: int) -> bool {
    &&& from <= at
    &&& occurs_at(text, pattern, at)
    &&& forall|k: int| from <= k < at ==> !occurs_at(text, pattern, k)
}

/// `pattern` stands nowhere in `text` from position `from` on.
pub open spec fn absent_from(text: Seq<char>, pattern: Seq<char>, from: int) -> bool {
    forall|k: int| from <= k ==> !occurs_at(text, pattern, k)
}

/// `text` with every occurrence of `pattern` replaced by `with`, reading from
/// the left and resuming after each occurrence.  An empty pattern occurs
/// nowhere.
pub open spec fn replaced(text: Seq<char>, pattern: Seq<char>, with: Seq<char>) -> Seq<char>
    decreases text.len(),
{
    if pattern.len() == 0 || text.len() == 0 {
        text
    } else if occurs_at(text, pattern, 0) {
        with + replaced(text.skip(pattern.len() as int), pattern, with)
    } else {
        seq![text[0]] + replaced(text.skip(1), pattern, with)
    }
}

/// The views of a sequence of strings.
pub open spec fn views(strings: Seq<String>) -> Seq<Seq<char>> {
    strings.map_values(|s: String| s@)
}

/// Appends one character to a string.
///
/// Trusted: `String::push` of the standard library, which is documented to
/// append the given character to the end of the string.
#[verifier::external_body]
fn push_char(s: &mut String, c: char)
    ensures
        final(s)@ == old(s)@.push(c),
{
    s.push(c)
}

/// The characters of `s`, in order.
pub fn chars_of(s: &str) -> (out: Vec<char>)
    ensures
        out@ == s@,
{
    let mut out: Vec<char> = Vec::new();
    for c in it: s.chars()
        invariant
            it.seq() == s@,
            out@ == it.seq().take(it.index() as int),
    {
        out.push(c);
    }
    out
}

/// The string made of the characters of `chars` from `start` up to `end`.
pub fn string_of_range(chars: &[char], start: usize, end: usize) -> (out: String)
    requires
        start <= end <= chars@.len(),
    ensures
        out@ == chars@.subrange(start as int, end as int),
{
    let mut out = String::new();
    let mut i: usize = start;
    while i < end
        invariant
            start <= i <= end <= chars@.len(),
            out@ == chars@.subrange(start as int, i as int),
        decreases end - i,
    {
        push_char(&mut out, chars[i]);
        assert(chars@.subrange(start as int, i + 1) == chars@.subrange(start as int, i as int).push(
            chars@[i as int],
        ));
        i += 1;
    }
    out
}

/// The string made of the characters of `chars`.
pub fn string_of(chars: &[char]) -> (out: String)
    ensures
        out@ == chars@,
{
    let out = string_of_range(chars, 0, chars.len());
    assert(chars@.subrange(0, chars@.len() as int) == chars@);
    out
}

/// Appends the characters of `part` to `out`.
pub fn append_chars(out: &mut Vec<char>, part: &[char])
    ensures
        final(out)@ == old(out)@ + part@,
{
    let mut i: usize = 0;
    while i < part.len()
        invariant
            i <= part@.len(),
            out@ == old(out)@ + part@.take(i as int),
        decreases part.len() - i,
    {
        out.push(part[i]);
        assert(part@.take(i + 1) == part@.take(i as int).push(part@[i as int]));
        i += 1;
    }
    assert(part@.take(part@.len() as int) == part@);
}

/// Appends the characters of `text` from `start` up to `end` to `out`.
pub fn append_range(out: &mut Vec<char>, text: &[char], start: usize, end: usize)
    requires
        start <= end <= text@.len(),
    ensures
        final(out)@ == old(out)@ + text@.subrange(start as int, end as int),
{
    let mut i: usize = start;
    while i < end
        invariant
            start <= i <= end <= text@.len(),
            out@ == old(out)@ + text@.subrange(start as int, i as int),
        decreases end - i,
    {
        out.push(text[i]);
        assert(text@.subrange(start as int, i + 1) == text@.subrange(start as int, i as int).push(
            text@[i as int],
        ));
        i += 1;
    }
}

/// Whether `pattern` stands in `text` at position `at`.
pub fn matches_at(text: &[char], pattern: &[char], at: usize) -> (found: bool)
    ensures
        found == occurs_at(text@, pattern@, at as int),
{
    if pattern.len() > text.len() || at > text.len() - pattern.len() {
        return false;
    }
    let ghost window = text@.subrange(at as int, at + pattern@.len());
    let mut k: usize = 0;
    while k < pattern.len()
        invariant
            k <= pattern@.len(),
            at + pattern@.len() <= text@.len() <= usize::MAX,
            window == text@.subrange(at as int, at + pattern@.len()),
            forall|j: int| 0 <= j < k ==> window[j] == pattern@[j],
        decreases pattern.len() - k,
    {
        if text[at + k] != pattern[k] {
            assert(window[k as int] != pattern@[k as int]);
            return false;
        }
        k += 1;
    }
    assert(window =~= pattern@);
    true
}

/// The first position from `from` on at which `pattern` stands in `text`.
pub fn find(text: &[char], pattern: &[char], from: usize) -> (found: Option<usize>)
    ensures
        match found {
            Some(at) => first_occurrence(text@, pattern@, from as int, at as int),
            None => absent_from(text@, pattern@, from as int),
        },
{
    if pattern.len() > text.len() || from > text.len() - pattern.len() {
        return None;
    }
    let last: usize = text.len() - pattern.len();
    let mut at: usize = from;
    loop
        invariant
            from <= at <= last,
            last == text@.len() - pattern@.len(),
            forall|k: int| from <= k < at ==> !occurs_at(text@, pattern@, k),
        decreases last - at,
    {
        if matches_at(text, pattern, at) {
            return Some(at);
        }
        if at == last {
            return None;
        }
        at += 1;
    }
}

/// Whether `pattern` stands somewhere in `text`.
pub fn contains_chars(text: &[char], pattern: &[char]) -> (found: bool)
    ensures
        found == contains(text@, pattern@),
{
    find(text, pattern, 0).is_some()
}

/// Whether `text` begins with `prefix`.
pub fn has_prefix(text: &[char], prefix: &[char]) -> (found: bool)
    ensures
        found == starts_with(text@, prefix@),
{
    matches_at(text, prefix, 0)
}

/// Whether `text` ends with `suffix`.
pub fn has_suffix(text: &[char], suffix: &[char]) -> (found: bool)
    ensures
        found == ends_with(text@, suffix@),
{
    if suffix.len() > text.len() {
        return false;
    }
    matches_at(text, suffix, text.len() - suffix.len())
}

/// `text` with every occurrence of `pattern` replaced by `with`.
pub fn replace_all(text: &[char], pattern: &[char], with: &[char]) -> (out: Vec<char>)
    ensures
        out@ == replaced(text@, pattern@, with@),
{
    let mut out: Vec<char> = Vec::new();
    if pattern.len() == 0 {
        append_chars(&mut out, text);
        return out;
    }
    let mut i: usize = 0;
    assert(text@.skip(0) == text@);
    while i < text.len()
        invariant
            i <= text@.len(),
            pattern@.len() > 0,
            replaced(text@, pattern@, with@) == out@ + replaced(text@.skip(i as int), pattern@, with@),
        decreases text.len() - i,
    {
        let ghost rest = text@.skip(i as int);
        let ghost before = out@;
        if matches_at(text, pattern, i) {
            assert(rest.subrange(0, pattern@.len() as int) == text@.subrange(
                i as int,
                i + pattern@.len(),
            ));
            assert(rest.skip(pattern@.len() as int) == text@.skip(i + pattern@.len()));
            append_chars(&mut out, with);
            i += pattern.len();
            assert(out@ + replaced(text@.skip(i as int), pattern@, with@) == before + (with@
                + replaced(text@.skip(i as int), pattern@, with@)));
        } else {
            assert(occurs_at(rest, pattern@, 0) ==> occurs_at(text@, pattern@, i as int)) by {
                if occurs_at(rest, pattern@, 0) {
                    assert(rest.subrange(0, pattern@.len() as int) == text@.subrange(
                        i as int,
                        i + pattern@.len(),
                    ));
                }
            }
            assert(rest.skip(1) == text@.skip(i + 1));
            out.push(text[i]);
            i += 1;
            assert(out@ + replaced(text@.skip(i as int), pattern@, with@) == before + (seq![rest[0]]
                + replaced(text@.skip(i as int), pattern@, with@)));
        }
    }
    assert(text@.skip(text@.len() as int).len() == 0);
    out
}

/// Whether `a` and `b` hold the same characters.
pub fn same_chars(a: &[char], b: &[char]) -> (same: bool)
    ensures
        same == (a@ == b@),
{
    if a.len() != b.len() {
        return false;
    }
    let same = matches_at(a, b, 0);
    assert(a@.subrange(0, a@.len() as int) == a@);
    same
}

/// Whether `a` and `b` are the same text.
pub fn same_text(a: &str, b: &str) -> (same: bool)
    ensures
        same == (a@ == b@),
{
    let a_chars = chars_of(a);
    let b_chars = chars_of(b);
    same_chars(a_chars.as_slice(), b_chars.as_slice())
}

/// Whether `text` begins with `prefix`.
pub fn text_starts_with(text: &str, prefix: &str) -> (found: bool)
    ensures
        found == starts_with(text@, prefix@),
{
    let text_chars = chars_of(text);
    let prefix_chars = chars_of(prefix);
    has_prefix(text_chars.as_slice(), prefix_chars.as_slice())
}

/// Whether `text` ends with `suffix`.
pub fn text_ends_with(text: &str, suffix: &str) -> (found: bool)
    ensures
        found == ends_with(text@, suffix@),
{
    let text_chars = chars_of(text);
    let suffix_chars = chars_of(suffix);
    has_suffix(text_chars.as_slice(), suffix_chars.as_slice())
}

/// The texts of `parts` in a row, with `separator` between each two.
pub open spec fn joined(parts: Seq<Seq<char>>, separator: Seq<char>) -> Seq<char>
    decreases parts.len(),
{
    if parts.len() == 0 {
        Seq::empty()
    } else if parts.len() == 1 {
        parts[0]
    } else {
        parts[0] + separator + joined(parts.skip(1), separator)
    }
}

/// Where `pattern` follows `part`, it stands at no position of `part`.
pub open spec fn clear_before(part: Seq<char>, pattern: Seq<char>) -> bool {
    forall|k: int| 0 <= k < part.len() ==> !occurs_at(part + pattern, pattern, k)
}

/// `parts` are the pieces between the occurrences of `pattern`: the
/// pattern stands in none of them, nor across the end of one.
pub open spec fn split_by(parts: Seq<Seq<char>>, pattern: Seq<char>) -> bool {
    &&& parts.len() > 0
    &&& forall|i: int| 0 <= i < parts.len() - 1 ==> clear_before(#[trigger] parts[i], pattern)
    &&& !contains(parts.last(), pattern)
}

/// A text in which the pattern does not stand is not changed.
pub proof fn lemma_replaced_without_pattern(text: Seq<char>, pattern: Seq<char>, with: Seq<char>)
    requires
        !contains(text, pattern),
    ensures
        replaced(text, pattern, with) == text,
    decreases text.len(),
{
    if pattern.len() > 0 && text.len() > 0 {
        assert(!occurs_at(text, pattern, 0));
        let rest = text.skip(1);
        assert forall|at: int| !occurs_at(rest, pattern, at) by {
            if occurs_at(rest, pattern, at) {
                assert(rest.subrange(at, at + pattern.len()) == text.subrange(
                    at + 1,
                    at + 1 + pattern.len(),
                ));
                assert(occurs_at(text, pattern, at + 1));
            }
        }
        lemma_replaced_without_pattern(rest, pattern, with);
        assert(seq![text[0]] + rest == text);
    }
}

/// Where the pattern first stands behind `part`, the replacement begins
/// with `part` and the substitute, and goes on with what follows.
pub proof fn lemma_replaced_first(
    part: Seq<char>,
    pattern: Seq<char>,
    with: Seq<char>,
    rest: Seq<char>,
)
    requires
        pattern.len() > 0,
        clear_before(part, pattern),
    ensures
        replaced(part + pattern + rest, pattern, with) == part + with + replaced(
            rest,
            pattern,
            with,
        ),
    decreases part.len(),
{
    let text = part + pattern + rest;
    if part.len() == 0 {
        assert(text.subrange(0, pattern.len() as int) == pattern);
        assert(text.skip(pattern.len() as int) == rest);
        assert(part + with + replaced(rest, pattern, with) == with + replaced(rest, pattern, with));
    } else {
        assert(!occurs_at(text, pattern, 0)) by {
            if occurs_at(text, pattern, 0) {
                assert((part + pattern).subrange(0, pattern.len() as int) == text.subrange(
                    0,
                    pattern.len() as int,
                ));
                assert(occurs_at(part + pattern, pattern, 0));
            }
        }
        let shorter = part.skip(1);
        assert forall|k: int| 0 <= k < shorter.len() implies !occurs_at(
            shorter + pattern,
            pattern,
            k,
        ) by {
            if occurs_at(shorter + pattern, pattern, k) {
                assert((shorter + pattern).subrange(k, k + pattern.len()) == (part + pattern).subrange(
                    k + 1,
                    k + 1 + pattern.len(),
                ));
                assert(occurs_at(part + pattern, pattern, k + 1));
            }
        }
        lemma_replaced_first(shorter, pattern, with, rest);
        assert(text.skip(1) == shorter + pattern + rest);
        assert(seq![text[0]] + (shorter + with + replaced(rest, pattern, with)) == part + with
            + replaced(rest, pattern, with));
    }
}

/// Every occurrence is replaced, and each by the same text: a text that
/// is made of pieces with the pattern between them, and in which the
/// pattern stands nowhere else, becomes the same pieces with the substitute
/// between them.
pub proof fn lemma_every_occurrence_replaced(
    parts: Seq<Seq<char>>,
    pattern: Seq<char>,
    with: Seq<char>,
)
    requires
        pattern.len() > 0,
        split_by(parts, pattern),
    ensures
        replaced(joined(parts, pattern), pattern, with) == joined(parts, with),
    decreases parts.len(),
{
    if parts.len() == 1 {
        lemma_replaced_without_pattern(parts[0], pattern, with);
    } else {
        let rest = parts.skip(1);
        assert(rest.last() == parts.last());
        assert forall|i: int| 0 <= i < rest.len() - 1 implies clear_before(
            #[trigger] rest[i],
            pattern,
        ) by {
            assert(rest[i] == parts[i + 1]);
        }
        lemma_every_occurrence_replaced(rest, pattern, with);
        lemma_replaced_first(parts[0], pattern, with, joined(rest, pattern));
    }
}

/// A pattern stands in the second of two joined texts exactly where it
/// stands in that text alone.
pub proof fn lemma_occurs_in_back(front: Seq<char>, back: Seq<char>, pattern: Seq<char>, at: int)
    requires
        0 <= at,
    ensures
        occurs_at(front + back, pattern, front.len() + at) <==> occurs_at(back, pattern, at),
{
    if at + pattern.len() <= back.len() {
        assert((front + back).subrange(front.len() + at, front.len() + at + pattern.len())
            == back.subrange(at, at + pattern.len()));
    }
}

/// A pattern that stands at or behind a position has a first place there.
pub proof fn lemma_first_occurrence_exists(
    text: Seq<char>,
    pattern: Seq<char>,
    from: int,
    at: int,
) -> (first: int)
    requires
        from <= at,
        occurs_at(text, pattern, at),
    ensures
        first <= at,
        first_occurrence(text, pattern, from, first),
    decreases at - from,
{
    if from == at {
        at
    } else if occurs_at(text, pattern, from) {
        from
    } else {
        let first = lemma_first_occurrence_exists(text, pattern, from + 1, at);
        first
    }
}

} // verus!
