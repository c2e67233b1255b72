//! String primitives: comparison, search, trimming and joining, each stated
//! over the sequence of characters that a string denotes.

use vstd::prelude::*;
use vstd::std_specs::iter::IteratorSpec;

verus! {

/// Trusted: `String::push` of the standard library appends the given
/// character to the end of the string and leaves the rest as it was.
pub assume_specification[ String::push ](s: &mut String, c: char)
    ensures
        final(s)@ == old(s)@.push(c),
;

/// The whitespace that is stripped from both ends of an input line: the ASCII
/// space and the ASCII control characters from horizontal tab to carriage
/// return.
pub open spec fn is_blank(c: char) -> bool {
    c == ' ' || ('\t' <= c && c <= '\r')
}

/// `s` without its trailing blanks.
pub open spec fn trimmed_end(s: Seq<char>) -> Seq<char>
    decreases s.len(),
{
    if s.len() > 0 && is_blank(s.last()) {
        trimmed_end(s.drop_last())
    } else {
        s
    }
}

/// `s` without its leading blanks.
pub open spec fn trimmed_start(s: Seq<char>) -> Seq<char>
    decreases s.len(),
{
    if s.len() > 0 && is_blank(s.first()) {
        trimmed_start(s.drop_first())
    } else {
        s
    }
}

/// `s` without the blanks at either end.
pub open spec fn trimmed(s: Seq<char>) -> Seq<char> {
    trimmed_start(trimmed_end(s))
}

/// The pieces of `parts` written one after another with `sep` between each
/// two neighbours.
pub open spec fn joined(parts: Seq<Seq<char>>, sep: Seq<char>) -> Seq<char>
    decreases parts.len(),
{
    if parts.len() == 0 {
        Seq::empty()
    } else if parts.len() == 1 {
        parts[0]
    } else {
        joined(parts.drop_last(), sep) + sep + parts.last()
    }
}

/// Cutting trailing blanks off a string that ends in a non-blank character,
/// or off the empty string, changes nothing; otherwise the cut can be made
/// one character at a time.
proof fn lemma_trimmed_end_is_prefix(s: Seq<char>, end: int)
    requires
        0 <= end <= s.len(),
        forall|i: int| end <= i < s.len() ==> is_blank(#[trigger] s[i]),
        end > 0 ==> !is_blank(s[end - 1]),
    ensures
        trimmed_end(s) == s.take(end),
    decreases s.len(),
{
    if end == s.len() {
        assert(s.take(end) =~= s);
    } else {
        assert(is_blank(s[s.len() - 1]));
        lemma_trimmed_end_is_prefix(s.drop_last(), end);
        assert(s.drop_last().take(end) =~= s.take(end));
    }
}

proof fn lemma_trimmed_start_is_suffix(s: Seq<char>, start: int)
    requires
        0 <= start <= s.len(),
        forall|i: int| 0 <= i < start ==> is_blank(#[trigger] s[i]),
        start < s.len() ==> !is_blank(s[start]),
    ensures
        trimmed_start(s) == s.skip(start),
    decreases s.len(),
{
    if start == 0 {
        assert(s.skip(0) =~= s);
    } else {
        assert(is_blank(s[0]));
        let rest = s.drop_first();
        assert forall|i: int| 0 <= i < start - 1 implies is_blank(#[trigger] rest[i]) by {
            assert(rest[i] == s[i + 1]);
        }
        lemma_trimmed_start_is_suffix(rest, start - 1);
        assert(rest.skip(start - 1) =~= s.skip(start));
    }
}

/// A trimmed string is the stretch of the string between its first and its
/// last non-blank character; a string of blanks alone trims to nothing.
pub proof fn lemma_trimmed_is_inner_range(s: Seq<char>, start: int, end: int)
    requires
        0 <= start <= end <= s.len(),
        forall|i: int| 0 <= i < start ==> is_blank(#[trigger] s[i]),
        forall|i: int| end <= i < s.len() ==> is_blank(#[trigger] s[i]),
        start < end ==> !is_blank(s[start]) && !is_blank(s[end - 1]),
    ensures
        trimmed(s) == s.subrange(start, end),
{
    if start < end {
        lemma_trimmed_end_is_prefix(s, end);
        lemma_trimmed_start_is_suffix(s.take(end), start);
        assert(s.take(end).skip(start) =~= s.subrange(start, end));
    } else {
        // Every character is blank: both ends meet wherever the cut is made.
        lemma_trimmed_end_is_prefix(s, 0);
        assert(s.take(0) =~= Seq::<char>::empty());
        assert(s.subrange(start, end) =~= Seq::<char>::empty());
    }
}

/// Whether `c` is one of the blanks stripped from the ends of a line.
pub fn is_blank_char(c: char) -> (r: bool)
    ensures
        r == is_blank(c),
{
    c == ' ' || ('\t' <= c && c <= '\r')
}

/// Whether two string slices hold the same characters.
pub fn same_text(a: &str, b: &str) -> (r: bool)
    ensures
        r == (a@ == b@),
{
    if a.unicode_len() != b.unicode_len() {
        return false;
    }
    let mut other = b.chars();
    for c in it: a.chars()
        invariant
            it.seq() == a@,
            a@.len() == b@.len(),
            other.remaining() == b@.skip(it.index() as int),
            a@.take(it.index() as int) == b@.take(it.index() as int),
    {
        let d = other.next();
        if d != Some(c) {
            return false;
        }
    }
    assert(a@ =~= a@.take(a@.len() as int));
    assert(b@ =~= b@.take(b@.len() as int));
    true
}

/// Whether the character `c` occurs anywhere in `s`.
pub fn contains_char(s: &str, c: char) -> (r: bool)
    ensures
        r == s@.contains(c),
{
    for d in it: s.chars()
        invariant
            it.seq() == s@,
            !s@.take(it.index() as int).contains(c),
    {
        if d == c {
            return true;
        }
        assert(s@.take(it.index() + 1) =~= s@.take(it.index() as int).push(d));
    }
    assert(s@ =~= s@.take(s@.len() as int));
    false
}

/// The last character of `s`, if it has one.
pub fn last_char(s: &str) -> (r: Option<char>)
    ensures
        s@.len() == 0 ==> r is None,
        s@.len() > 0 ==> r == Some(s@.last()),
{
    let mut last: Option<char> = None;
    for c in it: s.chars()
        invariant
            it.seq() == s@,
            it.index() == 0 ==> last is None,
            it.index() > 0 ==> last == Some(s@[it.index() - 1]),
    {
        last = Some(c);
    }
    last
}

/// Strips the blanks from both ends of `line`.
pub fn trim(line: &str) -> (r: &str)
    ensures
        r@ == trimmed(line@),
{
    let n = line.unicode_len();
    let mut start: usize = 0;
    let mut end: usize = 0;
    let mut seen: usize = 0;
    for c in it: line.chars()
        invariant
            it.seq() == line@,
            n == line@.len(),
            seen == it.index(),
            start <= end <= seen,
            forall|i: int| 0 <= i < start ==> is_blank(#[trigger] line@[i]),
            forall|i: int| end <= i < seen ==> is_blank(#[trigger] line@[i]),
            start < end ==> !is_blank(line@[start as int]) && !is_blank(line@[end - 1]),
            start == end ==> start == seen,
    {
        if is_blank_char(c) {
            if start == end {
                start = seen + 1;
                end = seen + 1;
            }
        } else {
            end = seen + 1;
        }
        seen = seen + 1;
    }
    proof {
        lemma_trimmed_is_inner_range(line@, start as int, end as int);
    }
    line.substring_char(start, end)
}

/// Copies a slice of strings into a vector of its own.
pub fn to_owned_all(parts: &[String]) -> (copy: Vec<String>)
    ensures
        copy.deep_view() == parts.deep_view(),
{
    let mut copy: Vec<String> = Vec::new();
    let mut i: usize = 0;
    while i < parts.len()
        invariant
            i <= parts.len(),
            copy.len() == i,
            forall|k: int| 0 <= k < i ==> (#[trigger] copy[k])@ == parts[k]@,
        decreases parts.len() - i,
    {
        copy.push(parts[i].clone());
        i = i + 1;
    }
    assert(copy.deep_view() =~= parts.deep_view());
    copy
}

/// Writes `parts` one after another with `sep` between each two neighbours.
pub fn join(parts: &[String], sep: &str) -> (r: String)
    ensures
        r@ == joined(parts.deep_view(), sep@),
{
    let mut out = String::new();
    let mut i: usize = 0;
    while i < parts.len()
        invariant
            i <= parts.len(),
            out@ == joined(parts.deep_view().take(i as int), sep@),
        decreases parts.len() - i,
    {
        if i > 0 {
            out.append(sep);
        }
        out.append(parts[i].as_str());
        proof {
            let all = parts.deep_view();
            assert(all.take(i + 1).drop_last() =~= all.take(i as int));
            assert(all.take(i + 1).last() == parts[i as int]@);
        }
        i = i + 1;
    }
    assert(parts.deep_view().take(i as int) =~= parts.deep_view());
    out
}

} // verus!
