//! Text primitives: white space, trimming, substring search, fields and
//! lines.
//!
//! Every rule is a specification function over `Seq<char>`, the view of a
//! string, with the laws that hold of it.

use crate::scan::{copy_range, next_line, to_chars, trim_range};
use vstd::prelude::*;

verus! {

/// Whether `c` is white space as Unicode defines it (`White_Space`).
pub open spec fn is_space(c: char) -> bool {
    let n = c as u32;
    ||| 0x09 <= n <= 0x0d
    ||| n == 0x20
    ||| n == 0x85
    ||| n == 0xa0
    ||| n == 0x1680
    ||| 0x2000 <= n <= 0x200a
    ||| n == 0x2028
    ||| n == 0x2029
    ||| n == 0x202f
    ||| n == 0x205f
    ||| n == 0x3000
}

/// `s` without its leading white space.
pub open spec fn trimmed_start(s: Seq<char>) -> Seq<char>
    decreases s.len(),
{
    if s.len() > 0 && is_space(s.first()) {
        trimmed_start(s.drop_first())
    } else {
        s
    }
}

/// `s` without its trailing white space.
pub open spec fn trimmed_end(s: Seq<char>) -> Seq<char>
    decreases s.len(),
{
    if s.len() > 0 && is_space(s.last()) {
        trimmed_end(s.drop_last())
    } else {
        s
    }
}

/// `s` without its leading and trailing white space.
pub open spec fn trimmed(s: Seq<char>) -> Seq<char> {
    trimmed_end(trimmed_start(s))
}

/// Whether `needle` stands in `hay` at index `i`.
pub open spec fn occurs_at(hay: Seq<char>, needle: Seq<char>, i: int) -> bool {
    &&& 0 <= i
    &&& i + needle.len() <= hay.len()
    &&& hay.subrange(i, i + needle.len()) == needle
}

/// Whether `needle` stands somewhere in `hay`.
pub open spec fn occurs_in(hay: Seq<char>, needle: Seq<char>) -> bool {
    exists|i: int| occurs_at(hay, needle, i)
}

/// The index of the first `c` in `s`, or the length of `s` where it holds none.
pub open spec fn index_of(s: Seq<char>, c: char) -> int
    decreases s.len(),
{
    if s.len() == 0 {
        0
    } else if s.first() == c {
        0
    } else {
        1 + index_of(s.drop_first(), c)
    }
}

/// The second of the fields that `sep` divides `line` into: what stands
/// between the first `sep` and the next one, or the end of the line. There is
/// none where `line` holds no `sep`.
pub open spec fn second_field(line: Seq<char>, sep: char) -> Option<Seq<char>> {
    let i = index_of(line, sep);
    if 0 <= i < line.len() {
        let rest = line.skip(i + 1);
        Some(rest.take(index_of(rest, sep)))
    } else {
        None
    }
}

/// The lines of `text`. A line ends at a line feed or at the end of the text;
/// the line feed is no part of it, nor is a carriage return just before the
/// line feed. After a final line feed no further, empty line follows.
pub open spec fn lines_of(text: Seq<char>) -> Seq<Seq<char>>
    decreases text.len(),
{
    if text.len() == 0 {
        Seq::empty()
    } else {
        let n = index_of(text, '\n');
        if 0 <= n < text.len() {
            seq![without_return(text.take(n))] + lines_of(text.skip(n + 1))
        } else {
            seq![text]
        }
    }
}

/// `line` without one carriage return at its end.
pub open spec fn without_return(line: Seq<char>) -> Seq<char> {
    if line.len() > 0 && line.last() == '\r' {
        line.drop_last()
    } else {
        line
    }
}

/// The first of `lines` in which `marker` stands.
pub open spec fn first_containing(lines: Seq<Seq<char>>, marker: Seq<char>) -> Option<Seq<char>>
    decreases lines.len(),
{
    if lines.len() == 0 {
        None
    } else if occurs_in(lines.first(), marker) {
        Some(lines.first())
    } else {
        first_containing(lines.drop_first(), marker)
    }
}

/// The first of `lines` that begins with `key`.
pub open spec fn first_starting(lines: Seq<Seq<char>>, key: Seq<char>) -> Option<Seq<char>>
    decreases lines.len(),
{
    if lines.len() == 0 {
        None
    } else if occurs_at(lines.first(), key, 0) {
        Some(lines.first())
    } else {
        first_starting(lines.drop_first(), key)
    }
}

/// What `index_of` returns is in range, no `c` stands before it, and `c`
/// stands at it unless it is the length.
pub proof fn lemma_index_of(s: Seq<char>, c: char)
    ensures
        0 <= index_of(s, c) <= s.len(),
        forall|j: int| 0 <= j < index_of(s, c) ==> s[j] != c,
        index_of(s, c) < s.len() ==> s[index_of(s, c)] == c,
    decreases s.len(),
{
    if s.len() > 0 && s.first() != c {
        let t = s.drop_first();
        lemma_index_of(t, c);
        assert forall|j: int| 0 <= j < index_of(s, c) implies s[j] != c by {
            if j > 0 {
                assert(s[j] == t[j - 1]);
            }
        }
    }
}

/// An index of which `lemma_index_of` would hold is `index_of`.
pub proof fn lemma_index_of_unique(s: Seq<char>, c: char, k: int)
    requires
        0 <= k <= s.len(),
        forall|j: int| 0 <= j < k ==> s[j] != c,
        k < s.len() ==> s[k] == c,
    ensures
        index_of(s, c) == k,
{
    lemma_index_of(s, c);
}

/// What `trimmed_start` leaves is the end of `s`; before it stands white
/// space only, and it does not begin with white space.
pub proof fn lemma_trimmed_start(s: Seq<char>)
    ensures
        trimmed_start(s).len() <= s.len(),
        trimmed_start(s) == s.skip(s.len() - trimmed_start(s).len()),
        forall|i: int| 0 <= i < s.len() - trimmed_start(s).len() ==> is_space(s[i]),
        trimmed_start(s).len() > 0 ==> !is_space(trimmed_start(s).first()),
    decreases s.len(),
{
    if s.len() > 0 && is_space(s.first()) {
        let t = s.drop_first();
        lemma_trimmed_start(t);
        let k = t.len() - trimmed_start(t).len();
        assert forall|i: int| 0 <= i < k + 1 implies is_space(s[i]) by {
            if i > 0 {
                assert(s[i] == t[i - 1]);
            }
        }
    }
}

/// What `trimmed_end` leaves is the start of `s`; after it stands white
/// space only, and it does not end with white space.
pub proof fn lemma_trimmed_end(s: Seq<char>)
    ensures
        trimmed_end(s).len() <= s.len(),
        trimmed_end(s) == s.take(trimmed_end(s).len() as int),
        forall|i: int| trimmed_end(s).len() <= i < s.len() ==> is_space(s[i]),
        trimmed_end(s).len() > 0 ==> !is_space(trimmed_end(s).last()),
    decreases s.len(),
{
    if s.len() > 0 && is_space(s.last()) {
        let t = s.drop_last();
        lemma_trimmed_end(t);
        let k = trimmed_end(t).len() as int;
        assert forall|i: int| k <= i < s.len() implies is_space(s[i]) by {
            if i < t.len() {
                assert(s[i] == t[i]);
            }
        }
    }
}

/// The number of characters that `trimmed` takes off the start of `s`.
pub open spec fn leading_space(s: Seq<char>) -> int {
    s.len() - trimmed_start(s).len()
}

/// `trimmed(s)` is a part of `s` with white space only on either side of it,
/// and neither begins nor ends with white space.
pub proof fn lemma_trimmed(s: Seq<char>)
    ensures
        0 <= leading_space(s) <= leading_space(s) + trimmed(s).len() <= s.len(),
        trimmed(s) == s.subrange(leading_space(s), leading_space(s) + trimmed(s).len()),
        forall|i: int| 0 <= i < leading_space(s) ==> is_space(s[i]),
        forall|i: int| leading_space(s) + trimmed(s).len() <= i < s.len() ==> is_space(s[i]),
        trimmed(s).len() > 0 ==> !is_space(trimmed(s).first()) && !is_space(trimmed(s).last()),
{
    let u = trimmed_start(s);
    let r = trimmed(s);
    let a = leading_space(s);
    lemma_trimmed_start(s);
    lemma_trimmed_end(u);
    assert forall|i: int| a + r.len() <= i < s.len() implies is_space(s[i]) by {
        assert(s[i] == u[i - a]);
    }
}

/// Trimming what is trimmed changes nothing.
pub proof fn lemma_trimmed_twice(s: Seq<char>)
    ensures
        trimmed(trimmed(s)) == trimmed(s),
{
    lemma_trimmed(s);
}

/// Where one of `lines` holds `marker`, lines that follow them change nothing
/// of which is the first to hold it.
pub proof fn lemma_first_containing_ignores_rest(
    lines: Seq<Seq<char>>,
    more: Seq<Seq<char>>,
    marker: Seq<char>,
)
    requires
        first_containing(lines, marker) is Some,
    ensures
        first_containing(lines + more, marker) == first_containing(lines, marker),
    decreases lines.len(),
{
    let all = lines + more;
    if !occurs_in(lines.first(), marker) {
        assert(all.drop_first() == lines.drop_first() + more);
        lemma_first_containing_ignores_rest(lines.drop_first(), more, marker);
    }
}

/// The first line to hold `marker` is one of the lines and holds `marker`,
/// and no line before it does. Where there is none, no line holds `marker`.
pub proof fn lemma_first_containing(lines: Seq<Seq<char>>, marker: Seq<char>)
    ensures
        match first_containing(lines, marker) {
            Some(line) => exists|i: int|
                0 <= i < lines.len() && lines[i] == line && occurs_in(line, marker) && forall|
                    j: int,
                | 0 <= j < i ==> !occurs_in(#[trigger] lines[j], marker),
            None => forall|j: int| 0 <= j < lines.len() ==> !occurs_in(#[trigger] lines[j], marker),
        },
    decreases lines.len(),
{
    if lines.len() > 0 && !occurs_in(lines.first(), marker) {
        let rest = lines.drop_first();
        lemma_first_containing(rest, marker);
        match first_containing(rest, marker) {
            Some(line) => {
                let i = choose|i: int|
                    0 <= i < rest.len() && rest[i] == line && occurs_in(line, marker) && forall|
                        j: int,
                    | 0 <= j < i ==> !occurs_in(#[trigger] rest[j], marker);
                assert(lines[i + 1] == line);
                assert forall|j: int| 0 <= j < i + 1 implies !occurs_in(
                    #[trigger] lines[j],
                    marker,
                ) by {
                    if j > 0 {
                        assert(lines[j] == rest[j - 1]);
                    }
                }
            },
            None => {
                assert forall|j: int| 0 <= j < lines.len() implies !occurs_in(
                    #[trigger] lines[j],
                    marker,
                ) by {
                    if j > 0 {
                        assert(lines[j] == rest[j - 1]);
                    }
                }
            },
        }
    }
}

/// The lines of a text that ends with a line feed, followed by more text,
/// are the lines of the one, then the lines of the other.
pub proof fn lemma_lines_after_feed(head: Seq<char>, more: Seq<char>)
    requires
        head.len() > 0,
        head.last() == '\n',
    ensures
        lines_of(head + more) == lines_of(head) + lines_of(more),
    decreases head.len(),
{
    let all = head + more;
    let n = index_of(head, '\n');
    lemma_index_of(head, '\n');
    assert(index_of(all, '\n') == n) by {
        lemma_index_of_unique(all, '\n', n);
    }
    assert(all.take(n) == head.take(n));
    let head_rest = head.skip(n + 1);
    assert(all.skip(n + 1) == head_rest + more);
    if head_rest.len() > 0 {
        lemma_lines_after_feed(head_rest, more);
    }
}

/// Decides `is_space`.
pub fn is_whitespace(c: char) -> (b: bool)
    ensures
        b == is_space(c),
{
    let n: u32 = c as u32;
    (0x09 <= n && n <= 0x0d) || n == 0x20 || n == 0x85 || n == 0xa0 || n == 0x1680 || (0x2000 <= n
        && n <= 0x200a) || n == 0x2028 || n == 0x2029 || n == 0x202f || n == 0x205f || n == 0x3000
}

/// `text` without its leading and trailing white space.
pub fn trim(text: &str) -> (s: String)
    ensures
        s@ == trimmed(text@),
{
    let chars = to_chars(text);
    assert(chars@.subrange(0, chars@.len() as int) == chars@);
    let (a, b) = trim_range(&chars, 0, chars.len());
    copy_range(text, a, b)
}

/// The lines of `text`, in order.
pub fn lines(text: &str) -> (list: Vec<String>)
    ensures
        list@.map_values(|s: String| s@) == lines_of(text@),
{
    let chars = to_chars(text);
    let end = chars.len();
    let mut list: Vec<String> = Vec::new();
    let mut pos: usize = 0;
    assert(chars@.subrange(0, end as int) == chars@);
    while pos < end
        invariant
            pos <= end == chars.len(),
            chars@ == text@,
            lines_of(text@) == list@.map_values(|s: String| s@) + lines_of(
                chars@.subrange(pos as int, end as int),
            ),
        decreases end - pos,
    {
        let (stop, next) = next_line(&chars, pos, end);
        list.push(copy_range(text, pos, stop));
        pos = next;
    }
    list
}

} // verus!
