//! Text as sequences of characters: whitespace, trimming, tokens and lines.
//!
//! Every function here works on `char`s, never on bytes, so that a request
//! holding multi-byte characters is cut at the same places as its text says.

use vstd::prelude::*;
use vstd::slice::slice_subrange;

verus! {

/// The characters that carry Unicode's `White_Space` property.
pub open spec fn is_whitespace(c: char) -> bool {
    ||| ('\u{9}' <= c && c <= '\u{d}')
    ||| c == ' '
    ||| c == '\u{85}'
    ||| c == '\u{a0}'
    ||| c == '\u{1680}'
    ||| ('\u{2000}' <= c && c <= '\u{200a}')
    ||| c == '\u{2028}'
    ||| c == '\u{2029}'
    ||| c == '\u{202f}'
    ||| c == '\u{205f}'
    ||| c == '\u{3000}'
}

/// Index of the first whitespace character at or after `from`, or the length
/// of `s` where there is none.
pub open spec fn next_whitespace(s: Seq<char>, from: int) -> int
    decreases s.len() - from,
{
    if from >= s.len() {
        s.len() as int
    } else if is_whitespace(s[from]) {
        from
    } else {
        next_whitespace(s, from + 1)
    }
}

/// Index of the first character at or after `from` that is no whitespace, or
/// the length of `s` where there is none.
pub open spec fn next_non_whitespace(s: Seq<char>, from: int) -> int
    decreases s.len() - from,
{
    if from >= s.len() {
        s.len() as int
    } else if !is_whitespace(s[from]) {
        from
    } else {
        next_non_whitespace(s, from + 1)
    }
}

/// Index of the first `c` at or after `from`, or the length of `s` where
/// there is none.
pub open spec fn find_char(s: Seq<char>, c: char, from: int) -> int
    decreases s.len() - from,
{
    if from >= s.len() {
        s.len() as int
    } else if s[from] == c {
        from
    } else {
        find_char(s, c, from + 1)
    }
}

/// End of `s` once the whitespace before index `to` is taken off, never
/// below `low`.
pub open spec fn trimmed_end(s: Seq<char>, low: int, to: int) -> int
    decreases to - low,
{
    if to <= low {
        low
    } else if is_whitespace(s[to - 1]) {
        trimmed_end(s, low, to - 1)
    } else {
        to
    }
}

/// Where the trimmed text starts in `s`.
pub open spec fn trim_start_index(s: Seq<char>) -> int {
    next_non_whitespace(s, 0)
}

/// Where the trimmed text ends in `s`.
pub open spec fn trim_end_index(s: Seq<char>) -> int {
    trimmed_end(s, trim_start_index(s), s.len() as int)
}

/// `s` without its leading and trailing whitespace.
pub open spec fn trim(s: Seq<char>) -> Seq<char> {
    s.subrange(trim_start_index(s), trim_end_index(s))
}

/// The second of the words that whitespace separates in `s`.
pub open spec fn second_word(s: Seq<char>) -> Option<Seq<char>> {
    let first = next_non_whitespace(s, 0);
    let gap = next_whitespace(s, first);
    let second = next_non_whitespace(s, gap);
    if second < s.len() {
        Some(s.subrange(second, next_whitespace(s, second)))
    } else {
        None
    }
}

/// Index of the line feed that ends the line starting at `from`, or the
/// length of `s` for a last line without one.
pub open spec fn line_break(s: Seq<char>, from: int) -> int {
    find_char(s, '\n', from)
}

/// End of the content of the line starting at `from`: the line feed is not
/// part of a line, nor is a carriage return directly before the line feed. A
/// carriage return at the end of a last line without line feed stays.
pub open spec fn line_end(s: Seq<char>, from: int) -> int {
    let brk = line_break(s, from);
    if brk < s.len() && from < brk && s[brk - 1] == '\r' {
        brk - 1
    } else {
        brk
    }
}

/// The lines of `s` from index `from` on.
pub open spec fn lines_from(s: Seq<char>, from: int) -> Seq<Seq<char>>
    decreases s.len() + 1 - from,
    via lines_from_decreases
{
    if from < 0 || from >= s.len() {
        Seq::empty()
    } else {
        seq![s.subrange(from, line_end(s, from))] + lines_from(s, line_break(s, from) + 1)
    }
}

#[via_fn]
proof fn lines_from_decreases(s: Seq<char>, from: int) {
    if 0 <= from < s.len() {
        lemma_find_char_bounds(s, '\n', from);
    }
}

/// The lines of `s`. A final line feed opens no further line, so the empty
/// text has no line at all.
pub open spec fn lines(s: Seq<char>) -> Seq<Seq<char>> {
    lines_from(s, 0)
}

/// The first line of `s`, empty where `s` has no line.
pub open spec fn first_line(s: Seq<char>) -> Seq<char> {
    s.subrange(0, line_end(s, 0))
}

/// What follows `prefix` in the first of `lines` that starts with it.
pub open spec fn first_with_prefix(lines: Seq<Seq<char>>, prefix: Seq<char>) -> Option<Seq<char>>
    decreases lines.len(),
{
    if lines.len() == 0 {
        None
    } else if prefix.is_prefix_of(lines[0]) {
        Some(lines[0].skip(prefix.len() as int))
    } else {
        first_with_prefix(lines.drop_first(), prefix)
    }
}

/// The value of the first header line of `text` that starts with `prefix`.
pub open spec fn header_value(text: Seq<char>, prefix: Seq<char>) -> Option<Seq<char>> {
    first_with_prefix(lines(text), prefix)
}

pub proof fn lemma_next_whitespace_bounds(s: Seq<char>, from: int)
    requires
        0 <= from <= s.len(),
    ensures
        from <= next_whitespace(s, from) <= s.len(),
        next_whitespace(s, from) < s.len() ==> is_whitespace(s[next_whitespace(s, from)]),
        forall|i: int| from <= i < next_whitespace(s, from) ==> !is_whitespace(s[i]),
    decreases s.len() - from,
{
    if from < s.len() && !is_whitespace(s[from]) {
        lemma_next_whitespace_bounds(s, from + 1);
    }
}

pub proof fn lemma_next_non_whitespace_bounds(s: Seq<char>, from: int)
    requires
        0 <= from <= s.len(),
    ensures
        from <= next_non_whitespace(s, from) <= s.len(),
        next_non_whitespace(s, from) < s.len() ==> !is_whitespace(
            s[next_non_whitespace(s, from)],
        ),
        forall|i: int| from <= i < next_non_whitespace(s, from) ==> is_whitespace(s[i]),
    decreases s.len() - from,
{
    if from < s.len() && is_whitespace(s[from]) {
        lemma_next_non_whitespace_bounds(s, from + 1);
    }
}

pub proof fn lemma_find_char_bounds(s: Seq<char>, c: char, from: int)
    requires
        0 <= from <= s.len(),
    ensures
        from <= find_char(s, c, from) <= s.len(),
        find_char(s, c, from) < s.len() ==> s[find_char(s, c, from)] == c,
        forall|i: int| from <= i < find_char(s, c, from) ==> s[i] != c,
    decreases s.len() - from,
{
    if from < s.len() && s[from] != c {
        lemma_find_char_bounds(s, c, from + 1);
    }
}

pub proof fn lemma_trimmed_end_bounds(s: Seq<char>, low: int, to: int)
    requires
        0 <= low <= to <= s.len(),
    ensures
        low <= trimmed_end(s, low, to) <= to,
        low < trimmed_end(s, low, to) ==> !is_whitespace(s[trimmed_end(s, low, to) - 1]),
        forall|i: int| trimmed_end(s, low, to) <= i < to ==> is_whitespace(s[i]),
    decreases to - low,
{
    if low < to && is_whitespace(s[to - 1]) {
        lemma_trimmed_end_bounds(s, low, to - 1);
    }
}

/// Trimmed text neither starts nor ends with whitespace.
pub proof fn lemma_trim_is_tight(s: Seq<char>)
    ensures
        0 <= trim_start_index(s) <= trim_end_index(s) <= s.len(),
        trim(s).len() > 0 ==> !is_whitespace(trim(s)[0]) && !is_whitespace(trim(s).last()),
{
    lemma_next_non_whitespace_bounds(s, 0);
    lemma_trimmed_end_bounds(s, trim_start_index(s), s.len() as int);
}

/// Whether `c` carries Unicode's `White_Space` property.
pub fn char_is_whitespace(c: char) -> (b: bool)
    ensures
        b == is_whitespace(c),
{
    ('\u{9}' <= c && c <= '\u{d}')
        || c == ' '
        || c == '\u{85}'
        || c == '\u{a0}'
        || c == '\u{1680}'
        || ('\u{2000}' <= c && c <= '\u{200a}')
        || c == '\u{2028}'
        || c == '\u{2029}'
        || c == '\u{202f}'
        || c == '\u{205f}'
        || c == '\u{3000}'
}

/// The characters of `s`, in order.
pub fn to_chars(s: &str) -> (v: Vec<char>)
    ensures
        v@ == s@,
{
    let mut v: Vec<char> = Vec::new();
    for c in it: s.chars()
        invariant
            it.seq() == s@,
            v@ == it.seq().take(it.index() as int),
    {
        v.push(c);
    }
    assert(v@ == s@);
    v
}

/// Finds the first whitespace character at or after `from`.
pub fn scan_whitespace(s: &[char], from: usize) -> (r: usize)
    requires
        from <= s@.len(),
    ensures
        r == next_whitespace(s@, from as int),
        from <= r <= s@.len(),
{
    let mut i: usize = from;
    while i < s.len() && !char_is_whitespace(s[i])
        invariant
            from <= i <= s@.len(),
            next_whitespace(s@, from as int) == next_whitespace(s@, i as int),
        decreases s@.len() - i,
    {
        i = i + 1;
    }
    i
}

/// Finds the first character at or after `from` that is no whitespace.
pub fn scan_non_whitespace(s: &[char], from: usize) -> (r: usize)
    requires
        from <= s@.len(),
    ensures
        r == next_non_whitespace(s@, from as int),
        from <= r <= s@.len(),
{
    let mut i: usize = from;
    while i < s.len() && char_is_whitespace(s[i])
        invariant
            from <= i <= s@.len(),
            next_non_whitespace(s@, from as int) == next_non_whitespace(s@, i as int),
        decreases s@.len() - i,
    {
        i = i + 1;
    }
    i
}

/// Finds the first `c` at or after `from`.
pub fn scan_char(s: &[char], c: char, from: usize) -> (r: usize)
    requires
        from <= s@.len(),
    ensures
        r == find_char(s@, c, from as int),
        from <= r <= s@.len(),
{
    let mut i: usize = from;
    while i < s.len() && s[i] != c
        invariant
            from <= i <= s@.len(),
            find_char(s@, c, from as int) == find_char(s@, c, i as int),
        decreases s@.len() - i,
    {
        i = i + 1;
    }
    i
}

/// The bounds of the trimmed text within `s`.
pub fn trim_bounds(s: &[char]) -> (r: (usize, usize))
    ensures
        r.0 == trim_start_index(s@),
        r.1 == trim_end_index(s@),
        r.0 <= r.1 <= s@.len(),
{
    let start = scan_non_whitespace(s, 0);
    let mut end: usize = s.len();
    while start < end && char_is_whitespace(s[end - 1])
        invariant
            start <= end <= s@.len(),
            trimmed_end(s@, start as int, s@.len() as int) == trimmed_end(
                s@,
                start as int,
                end as int,
            ),
        decreases end,
    {
        end = end - 1;
    }
    (start, end)
}

/// Whether `s` starts with `prefix`.
pub fn starts_with(s: &[char], prefix: &[char]) -> (b: bool)
    ensures
        b == prefix@.is_prefix_of(s@),
{
    if prefix.len() > s.len() {
        return false;
    }
    let mut i: usize = 0;
    while i < prefix.len()
        invariant
            i <= prefix@.len() <= s@.len(),
            forall|j: int| 0 <= j < i ==> s@[j] == prefix@[j],
        decreases prefix@.len() - i,
    {
        if s[i] != prefix[i] {
            return false;
        }
        i = i + 1;
    }
    assert(s@.subrange(0, prefix@.len() as int) =~= prefix@);
    true
}

/// Whether `s` and `other` hold the same characters.
pub fn same_text(s: &[char], other: &[char]) -> (b: bool)
    ensures
        b == (s@ == other@),
{
    if s.len() != other.len() {
        return false;
    }
    let b = starts_with(s, other);
    proof {
        if b {
            assert(s@ =~= other@);
        }
    }
    b
}

/// The bounds of the second whitespace-separated word of `s`.
pub fn second_word_bounds(s: &[char]) -> (r: Option<(usize, usize)>)
    ensures
        match r {
            Some((a, b)) => a < b <= s@.len() && second_word(s@) == Some(
                s@.subrange(a as int, b as int),
            ),
            None => second_word(s@) is None,
        },
{
    let first = scan_non_whitespace(s, 0);
    let gap = scan_whitespace(s, first);
    let second = scan_non_whitespace(s, gap);
    if second < s.len() {
        let end = scan_whitespace(s, second);
        proof {
            lemma_next_non_whitespace_bounds(s@, gap as int);
            lemma_next_whitespace_bounds(s@, second as int);
        }
        Some((second, end))
    } else {
        None
    }
}

/// The bounds, within `s`, of what follows `prefix` in the first line that
/// starts with it.
pub fn find_header(s: &[char], prefix: &[char]) -> (r: Option<(usize, usize)>)
    ensures
        match r {
            Some((a, b)) => a <= b <= s@.len() && header_value(s@, prefix@) == Some(
                s@.subrange(a as int, b as int),
            ),
            None => header_value(s@, prefix@) is None,
        },
{
    let mut pos: usize = 0;
    while pos < s.len()
        invariant
            pos <= s@.len(),
            header_value(s@, prefix@) == first_with_prefix(lines_from(s@, pos as int), prefix@),
        decreases s@.len() - pos,
    {
        let brk = scan_char(s, '\n', pos);
        let end = if brk < s.len() && pos < brk && s[brk - 1] == '\r' {
            brk - 1
        } else {
            brk
        };
        let line = slice_subrange(s, pos, end);
        proof {
            let rest = lines_from(s@, brk as int + 1);
            let all = lines_from(s@, pos as int);
            assert(all == seq![line@] + rest);
            assert(all[0] == line@);
            assert(all.drop_first() =~= rest);
        }
        if starts_with(line, prefix) {
            proof {
                assert(line@.skip(prefix@.len() as int) =~= s@.subrange(
                    pos + prefix@.len(),
                    end as int,
                ));
            }
            return Some((pos + prefix.len(), end));
        }
        assert(header_value(s@, prefix@) == first_with_prefix(
            lines_from(s@, brk as int + 1),
            prefix@,
        ));
        if brk == s.len() {
            return None;
        }
        pos = brk + 1;
    }
    None
}

} // verus!
