//! The rules of `text`, carried out on the characters of a text and on
//! ranges of indices into them. No function here copies text but
//! `copy_range`: a line or a field is a pair of indices until it is handed
//! out, and a search for a line stops at the line it finds.

use crate::text::{
    first_containing, first_starting, index_of, is_whitespace, lemma_index_of_unique, lines_of,
    occurs_at, occurs_in, second_field, trimmed, trimmed_end, trimmed_start, without_return,
};
use vstd::prelude::*;

verus! {

/// The characters of `text`, in order.
pub(crate) fn to_chars(text: &str) -> (chars: Vec<char>)
    ensures
        chars@ == text@,
{
    let mut chars: Vec<char> = Vec::new();
    for c in it: text.chars()
        invariant
            chars@ == it.seq().take(it.index()),
    {
        chars.push(c);
    }
    chars
}

/// A copy of the characters `start..end` of `text`.
pub(crate) fn copy_range(text: &str, start: usize, end: usize) -> (s: String)
    requires
        start <= end <= text@.len(),
    ensures
        s@ == text@.subrange(start as int, end as int),
{
    text.substring_char(start, end).to_owned()
}

/// Narrows the range `start..end` of `chars` to what `trimmed` keeps of it.
pub(crate) fn trim_range(chars: &Vec<char>, start: usize, end: usize) -> (r: (usize, usize))
    requires
        start <= end <= chars.len(),
    ensures
        start <= r.0 <= r.1 <= end,
        chars@.subrange(r.0 as int, r.1 as int) == trimmed(
            chars@.subrange(start as int, end as int),
        ),
{
    let mut a: usize = start;
    while a < end && is_whitespace(chars[a])
        invariant
            start <= a <= end <= chars.len(),
            trimmed_start(chars@.subrange(start as int, end as int)) == trimmed_start(
                chars@.subrange(a as int, end as int),
            ),
        decreases end - a,
    {
        assert(chars@.subrange(a as int, end as int).drop_first() == chars@.subrange(
            a + 1,
            end as int,
        ));
        a = a + 1;
    }
    let mut b: usize = end;
    while a < b && is_whitespace(chars[b - 1])
        invariant
            a <= b <= end <= chars.len(),
            trimmed_end(chars@.subrange(a as int, end as int)) == trimmed_end(
                chars@.subrange(a as int, b as int),
            ),
        decreases b - a,
    {
        assert(chars@.subrange(a as int, b as int).drop_last() == chars@.subrange(
            a as int,
            b - 1,
        ));
        b = b - 1;
    }
    (a, b)
}

/// The index of the first `c` in the range `start..end` of `chars`, or `end`.
pub(crate) fn find_char(chars: &Vec<char>, start: usize, end: usize, c: char) -> (k: usize)
    requires
        start <= end <= chars.len(),
    ensures
        start <= k <= end,
        k - start == index_of(chars@.subrange(start as int, end as int), c),
{
    let mut k: usize = start;
    while k < end && chars[k] != c
        invariant
            start <= k <= end <= chars.len(),
            forall|j: int| start <= j < k ==> chars@[j] != c,
        decreases end - k,
    {
        k = k + 1;
    }
    proof {
        lemma_index_of_unique(chars@.subrange(start as int, end as int), c, k - start);
    }
    k
}

/// Whether `needle` stands at index `i` of `chars` without leaving the range
/// `start..end`.
pub(crate) fn matches_at(
    chars: &Vec<char>,
    start: usize,
    end: usize,
    needle: &Vec<char>,
    i: usize,
) -> (b: bool)
    requires
        start <= i <= end <= chars.len(),
    ensures
        b == occurs_at(chars@.subrange(start as int, end as int), needle@, i - start),
{
    let m = needle.len();
    if m > end - i {
        return false;
    }
    let ghost hay = chars@.subrange(start as int, end as int);
    let ghost part = hay.subrange(i - start, i - start + m);
    let mut k: usize = 0;
    while k < m
        invariant
            k <= m == needle.len(),
            start <= i,
            i + m <= end <= chars.len(),
            hay == chars@.subrange(start as int, end as int),
            part == hay.subrange(i - start, i - start + m),
            forall|j: int| 0 <= j < k ==> chars@[i + j] == needle@[j],
        decreases m - k,
    {
        if chars[i + k] != needle[k] {
            return false;
        }
        k = k + 1;
    }
    assert(part =~= needle@);
    true
}

/// Whether `needle` stands somewhere in the range `start..end` of `chars`.
pub(crate) fn range_contains(
    chars: &Vec<char>,
    start: usize,
    end: usize,
    needle: &Vec<char>,
) -> (b: bool)
    requires
        start <= end <= chars.len(),
    ensures
        b == occurs_in(chars@.subrange(start as int, end as int), needle@),
{
    let ghost hay = chars@.subrange(start as int, end as int);
    let mut i: usize = start;
    loop
        invariant
            start <= i <= end <= chars.len(),
            hay == chars@.subrange(start as int, end as int),
            forall|j: int| 0 <= j < i - start ==> !occurs_at(hay, needle@, j),
        decreases end - i,
    {
        if matches_at(chars, start, end, needle, i) {
            return true;
        }
        if i == end {
            return false;
        }
        i = i + 1;
    }
}

/// The range of the second field of the line `start..end` of `chars`.
pub(crate) fn field_range(chars: &Vec<char>, start: usize, end: usize, sep: char) -> (r: Option<
    (usize, usize),
>)
    requires
        start <= end <= chars.len(),
    ensures
        match r {
            Some((a, b)) => start <= a <= b <= end && second_field(
                chars@.subrange(start as int, end as int),
                sep,
            ) == Some(chars@.subrange(a as int, b as int)),
            None => second_field(chars@.subrange(start as int, end as int), sep) is None,
        },
{
    let i = find_char(chars, start, end, sep);
    if i == end {
        return None;
    }
    let j = find_char(chars, i + 1, end, sep);
    proof {
        let line = chars@.subrange(start as int, end as int);
        let rest = line.skip(i - start + 1);
        assert(rest == chars@.subrange(i + 1, end as int));
    }
    Some((i + 1, j))
}

/// The first line of the part `pos..end` of `chars`: where it stops, and
/// where the text after it begins.
pub(crate) fn next_line(chars: &Vec<char>, pos: usize, end: usize) -> (r: (usize, usize))
    requires
        pos < end <= chars.len(),
    ensures
        pos <= r.0 <= r.1 <= end,
        pos < r.1,
        lines_of(chars@.subrange(pos as int, end as int)) == seq![
            chars@.subrange(pos as int, r.0 as int),
        ] + lines_of(chars@.subrange(r.1 as int, end as int)),
{
    let ghost rest = chars@.subrange(pos as int, end as int);
    let feed = find_char(chars, pos, end, '\n');
    if feed < end {
        let stop = if feed > pos && chars[feed - 1] == '\r' {
            feed - 1
        } else {
            feed
        };
        assert(rest.skip(feed - pos + 1) == chars@.subrange(feed + 1, end as int));
        assert(without_return(rest.take(feed - pos)) == chars@.subrange(pos as int, stop as int));
        (stop, feed + 1)
    } else {
        (end, end)
    }
}

/// The range of the first line of the part `start..end` of `chars` in which
/// `marker` stands. No line after that one is looked at.
pub(crate) fn find_containing(
    chars: &Vec<char>,
    start: usize,
    end: usize,
    marker: &Vec<char>,
) -> (r: Option<(usize, usize)>)
    requires
        start <= end <= chars.len(),
    ensures
        match r {
            Some((a, b)) => start <= a <= b <= end && first_containing(
                lines_of(chars@.subrange(start as int, end as int)),
                marker@,
            ) == Some(chars@.subrange(a as int, b as int)),
            None => first_containing(
                lines_of(chars@.subrange(start as int, end as int)),
                marker@,
            ) is None,
        },
{
    let ghost all = lines_of(chars@.subrange(start as int, end as int));
    let mut pos: usize = start;
    while pos < end
        invariant
            start <= pos <= end <= chars.len(),
            all == lines_of(chars@.subrange(start as int, end as int)),
            first_containing(all, marker@) == first_containing(
                lines_of(chars@.subrange(pos as int, end as int)),
                marker@,
            ),
        decreases end - pos,
    {
        let ghost left = lines_of(chars@.subrange(pos as int, end as int));
        let (stop, next) = next_line(chars, pos, end);
        assert(left.drop_first() == lines_of(chars@.subrange(next as int, end as int)));
        if range_contains(chars, pos, stop, marker) {
            return Some((pos, stop));
        }
        pos = next;
    }
    None
}

/// The range of the first line of the part `start..end` of `chars` that
/// begins with `key`. No line after that one is looked at.
pub(crate) fn find_starting(
    chars: &Vec<char>,
    start: usize,
    end: usize,
    key: &Vec<char>,
) -> (r: Option<(usize, usize)>)
    requires
        start <= end <= chars.len(),
    ensures
        match r {
            Some((a, b)) => start <= a <= b <= end && first_starting(
                lines_of(chars@.subrange(start as int, end as int)),
                key@,
            ) == Some(chars@.subrange(a as int, b as int)),
            None => first_starting(lines_of(chars@.subrange(start as int, end as int)), key@) is None,
        },
{
    let ghost all = lines_of(chars@.subrange(start as int, end as int));
    let mut pos: usize = start;
    while pos < end
        invariant
            start <= pos <= end <= chars.len(),
            all == lines_of(chars@.subrange(start as int, end as int)),
            first_starting(all, key@) == first_starting(
                lines_of(chars@.subrange(pos as int, end as int)),
                key@,
            ),
        decreases end - pos,
    {
        let ghost left = lines_of(chars@.subrange(pos as int, end as int));
        let (stop, next) = next_line(chars, pos, end);
        assert(left.drop_first() == lines_of(chars@.subrange(next as int, end as int)));
        if matches_at(chars, pos, stop, key, pos) {
            return Some((pos, stop));
        }
        pos = next;
    }
    None
}

} // verus!
