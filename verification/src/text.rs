//! Text by its characters: finding a mark, passing over blanks, dropping line
//! ends and comparing.

use vstd::prelude::*;
use vstd::std_specs::iter::IteratorSpec;

verus! {

/// The first position at or after `start` that holds `mark`, or the length of
/// `s` where none does.
pub open spec fn index_from(s: Seq<char>, start: int, mark: char) -> int
    decreases s.len() - start,
{
    if start < 0 || start >= s.len() || s[start] == mark {
        start
    } else {
        index_from(s, start + 1, mark)
    }
}

/// `index_from` stops at the first `mark` and passes over nothing that is one.
pub proof fn lemma_index_from(s: Seq<char>, start: int, mark: char)
    requires
        0 <= start <= s.len(),
    ensures
        start <= index_from(s, start, mark) <= s.len(),
        index_from(s, start, mark) < s.len() ==> s[index_from(s, start, mark)] == mark,
        forall|i: int| start <= i < index_from(s, start, mark) ==> s[i] != mark,
    decreases s.len() - start,
{
    if start < s.len() && s[start] != mark {
        lemma_index_from(s, start + 1, mark);
    }
}

/// Whether `c` is a blank, that is white space as Unicode lists it: the
/// space, the tab, the line feed and the other line and page breaks, the
/// no-break space and the spaces of fixed width.
pub open spec fn is_blank(c: char) -> bool {
    ||| '\u{9}' <= c && c <= '\u{d}'
    ||| c == ' '
    ||| c == '\u{85}'
    ||| c == '\u{a0}'
    ||| c == '\u{1680}'
    ||| '\u{2000}' <= c && c <= '\u{200a}'
    ||| c == '\u{2028}'
    ||| c == '\u{2029}'
    ||| c == '\u{202f}'
    ||| c == '\u{205f}'
    ||| c == '\u{3000}'
}

/// The first position at or after `start` whose character is a blank, where
/// `blank` is true, or is none, where `blank` is false; the length of `s`
/// where there is no such position.
pub open spec fn next_where(s: Seq<char>, start: int, blank: bool) -> int
    decreases s.len() - start,
{
    if start < 0 || start >= s.len() || is_blank(s[start]) == blank {
        start
    } else {
        next_where(s, start + 1, blank)
    }
}

/// `next_where` stops at the first character of the kind sought and passes
/// over none of that kind.
pub proof fn lemma_next_where(s: Seq<char>, start: int, blank: bool)
    requires
        0 <= start <= s.len(),
    ensures
        start <= next_where(s, start, blank) <= s.len(),
        next_where(s, start, blank) < s.len() ==> is_blank(s[next_where(s, start, blank)])
            == blank,
        forall|i: int| start <= i < next_where(s, start, blank) ==> is_blank(s[i]) != blank,
    decreases s.len() - start,
{
    if start < s.len() && is_blank(s[start]) != blank {
        lemma_next_where(s, start + 1, blank);
    }
}

/// A position of the kind sought, or the end of `s`, with none of that kind
/// between it and `start`, is where `next_where` stops.
pub proof fn lemma_next_where_unique(s: Seq<char>, start: int, blank: bool, end: int)
    requires
        0 <= start <= end <= s.len(),
        end < s.len() ==> is_blank(s[end]) == blank,
        forall|i: int| start <= i < end ==> is_blank(s[i]) != blank,
    ensures
        next_where(s, start, blank) == end,
    decreases end - start,
{
    if start < end {
        lemma_next_where_unique(s, start + 1, blank, end);
    }
}

/// Tells a blank from other characters.
pub fn blank(c: char) -> (b: bool)
    ensures
        b == is_blank(c),
{
    (c >= '\u{9}' && c <= '\u{d}') || c == ' ' || c == '\u{85}' || c == '\u{a0}' || c
        == '\u{1680}' || (c >= '\u{2000}' && c <= '\u{200a}') || c == '\u{2028}' || c
        == '\u{2029}' || c == '\u{202f}' || c == '\u{205f}' || c == '\u{3000}'
}

/// Whether `s` holds no line break.
pub open spec fn one_line(s: Seq<char>) -> bool {
    forall|i: int| 0 <= i < s.len() ==> #[trigger] s[i] != '\n'
}

/// Text joined from single lines is a single line.
pub proof fn lemma_one_line_joined(a: Seq<char>, b: Seq<char>)
    requires
        one_line(a),
        one_line(b),
    ensures
        one_line(a + b),
{
    assert forall|i: int| 0 <= i < (a + b).len() implies #[trigger] (a + b)[i] != '\n' by {
        if i < a.len() {
            assert((a + b)[i] == a[i]);
        } else {
            assert((a + b)[i] == b[i - a.len()]);
        }
    }
}

/// Whether `c` ends a line: a line feed or a carriage return.
pub open spec fn is_line_end(c: char) -> bool {
    c == '\n' || c == '\r'
}

/// `s` without the line ends that close it.
pub open spec fn without_line_end(s: Seq<char>) -> Seq<char>
    decreases s.len(),
{
    if s.len() > 0 && is_line_end(s.last()) {
        without_line_end(s.drop_last())
    } else {
        s
    }
}

/// What is left of `s` is its part up to `keep`, where all behind `keep` are
/// line ends and the character in front of `keep`, if there is one, is none.
pub proof fn lemma_without_line_end(s: Seq<char>, keep: int)
    requires
        0 <= keep <= s.len(),
        keep > 0 ==> !is_line_end(s[keep - 1]),
        forall|i: int| keep <= i < s.len() ==> is_line_end(s[i]),
    ensures
        without_line_end(s) == s.subrange(0, keep),
    decreases s.len() - keep,
{
    if keep == s.len() {
        assert(s.subrange(0, keep) =~= s);
    } else {
        assert(is_line_end(s.last()));
        lemma_without_line_end(s.drop_last(), keep);
        assert(s.drop_last().subrange(0, keep) =~= s.subrange(0, keep));
    }
}

/// A line followed by line ends only is given back as it was: dropping the
/// line ends undoes appending them.
pub proof fn lemma_line_ends_dropped(line: Seq<char>, ends: Seq<char>)
    requires
        line.len() > 0 ==> !is_line_end(line.last()),
        forall|i: int| 0 <= i < ends.len() ==> is_line_end(ends[i]),
    ensures
        without_line_end(line + ends) == line,
{
    let s = line + ends;
    assert forall|i: int| line.len() <= i < s.len() implies is_line_end(s[i]) by {
        assert(s[i] == ends[i - line.len()]);
    }
    lemma_without_line_end(s, line.len() as int);
    assert(s.subrange(0, line.len() as int) =~= line);
}

/// What is left holds a line break only where `s` holds one in front of its
/// closing line ends; it is part of `s` and ends in no line end.
pub proof fn lemma_without_line_end_is_prefix(s: Seq<char>)
    ensures
        without_line_end(s).len() <= s.len(),
        without_line_end(s) == s.subrange(0, without_line_end(s).len() as int),
        without_line_end(s).len() > 0 ==> !is_line_end(without_line_end(s).last()),
        one_line(s) ==> one_line(without_line_end(s)),
    decreases s.len(),
{
    if s.len() > 0 && is_line_end(s.last()) {
        let front = s.drop_last();
        lemma_without_line_end_is_prefix(front);
        let kept = without_line_end(front);
        assert(front.subrange(0, kept.len() as int) =~= s.subrange(0, kept.len() as int));
        if one_line(s) {
            assert forall|i: int| 0 <= i < front.len() implies #[trigger] front[i] != '\n' by {
                assert(front[i] == s[i]);
            }
        }
    } else {
        assert(s.subrange(0, s.len() as int) =~= s);
    }
}

/// Drops the line ends that close `text`.
pub fn strip_line_end(text: &str) -> (kept: &str)
    ensures
        kept@ == without_line_end(text@),
{
    let ghost s = text@;
    let len = text.unicode_len();
    let mut keep: usize = 0;
    let mut i: usize = 0;
    for c in it: text.chars()
        invariant
            s == text@,
            len == s.len(),
            it.seq() == s,
            i == it.index(),
            keep <= i,
            keep > 0 ==> !is_line_end(s[keep - 1]),
            forall|j: int| keep <= j < i ==> is_line_end(s[j]),
    {
        i += 1;
        if !(c == '\n' || c == '\r') {
            keep = i;
        }
    }
    proof {
        lemma_without_line_end(s, keep as int);
    }
    text.substring_char(0, keep)
}

/// Whether two strings hold the same characters.
pub fn same_text(a: &str, b: &str) -> (same: bool)
    ensures
        same == (a@ == b@),
{
    let mut others = b.chars();
    for c in it: a.chars()
        invariant
            it.seq() == a@,
            it.index() <= b@.len(),
            others.remaining() == b@.skip(it.index() as int),
            forall|j: int| 0 <= j < it.index() ==> a@[j] == b@[j],
    {
        match others.next() {
            Some(d) => {
                if c != d {
                    return false;
                }
            },
            None => {
                return false;
            },
        }
    }
    if others.next().is_none() {
        assert(a@ =~= b@);
        true
    } else {
        false
    }
}

} // verus!
