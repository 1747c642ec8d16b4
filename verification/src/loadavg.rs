//! The load-average source: three fields separated by blanks, followed by
//! whatever else the system reports.

use crate::text::{
    blank, is_blank, lemma_next_where, lemma_next_where_unique, next_where, one_line,
};
use vstd::prelude::*;

verus! {

/// The 1-, 5- and 15-minute fields of a load-average line, as they were read.
#[derive(Clone, Copy, Debug, PartialEq, Eq)]
pub struct LoadFields<'a> {
    pub load1: &'a str,
    pub load5: &'a str,
    pub load15: &'a str,
}

/// Where the field begins that follows position `start`: blanks are passed
/// over.
pub open spec fn field_start(s: Seq<char>, start: int) -> int {
    next_where(s, start, false)
}

/// Where the field ends that begins at `start`: at the next blank, or at the
/// end of `s`.
pub open spec fn field_end(s: Seq<char>, start: int) -> int {
    next_where(s, start, true)
}

/// The first three fields of `s`, where it holds as many. A field is a run
/// of characters that are no blanks, as long as it can be; blanks in any
/// number separate the fields and may stand in front of the first.
pub open spec fn first_three_fields(s: Seq<char>) -> Option<(Seq<char>, Seq<char>, Seq<char>)> {
    let a = field_start(s, 0);
    let a_end = field_end(s, a);
    let b = field_start(s, a_end);
    let b_end = field_end(s, b);
    let c = field_start(s, b_end);
    let c_end = field_end(s, c);
    if c < s.len() {
        Some((s.subrange(a, a_end), s.subrange(b, b_end), s.subrange(c, c_end)))
    } else {
        None
    }
}

/// Whether `s` holds blanks only.
pub open spec fn all_blank(s: Seq<char>) -> bool {
    forall|i: int| 0 <= i < s.len() ==> is_blank(#[trigger] s[i])
}

/// Whether `s` is a word: at least one character, and no blank.
pub open spec fn is_word(s: Seq<char>) -> bool {
    s.len() > 0 && forall|i: int| 0 <= i < s.len() ==> !is_blank(#[trigger] s[i])
}

/// Splitting undoes joining: a line made of three words with blanks between
/// them, of blanks in front where there are any, and of a rest that is empty
/// or begins with a blank, splits into those three words.
pub proof fn lemma_split_of_joined(
    lead: Seq<char>,
    load1: Seq<char>,
    gap1: Seq<char>,
    load5: Seq<char>,
    gap2: Seq<char>,
    load15: Seq<char>,
    rest: Seq<char>,
)
    requires
        all_blank(lead),
        is_word(load1),
        all_blank(gap1) && gap1.len() > 0,
        is_word(load5),
        all_blank(gap2) && gap2.len() > 0,
        is_word(load15),
        rest.len() > 0 ==> is_blank(rest[0]),
    ensures
        first_three_fields(lead + load1 + gap1 + load5 + gap2 + load15 + rest) == Some(
            (load1, load5, load15),
        ),
{
    let s = lead + load1 + gap1 + load5 + gap2 + load15 + rest;
    let a = lead.len() as int;
    let a_end = a + load1.len();
    let b = a_end + gap1.len();
    let b_end = b + load5.len();
    let c = b_end + gap2.len();
    let c_end = c + load15.len();
    assert forall|i: int| 0 <= i < a implies is_blank(s[i]) by {
        assert(s[i] == lead[i]);
    }
    assert forall|i: int| a <= i < a_end implies !is_blank(s[i]) by {
        assert(s[i] == load1[i - a]);
    }
    assert forall|i: int| a_end <= i < b implies is_blank(s[i]) by {
        assert(s[i] == gap1[i - a_end]);
    }
    assert forall|i: int| b <= i < b_end implies !is_blank(s[i]) by {
        assert(s[i] == load5[i - b]);
    }
    assert forall|i: int| b_end <= i < c implies is_blank(s[i]) by {
        assert(s[i] == gap2[i - b_end]);
    }
    assert forall|i: int| c <= i < c_end implies !is_blank(s[i]) by {
        assert(s[i] == load15[i - c]);
    }
    if c_end < s.len() {
        assert(s[c_end] == rest[0]);
    }
    lemma_next_where_unique(s, 0, false, a);
    lemma_next_where_unique(s, a, true, a_end);
    lemma_next_where_unique(s, a_end, false, b);
    lemma_next_where_unique(s, b, true, b_end);
    lemma_next_where_unique(s, b_end, false, c);
    lemma_next_where_unique(s, c, true, c_end);
    assert(s.subrange(a, a_end) =~= load1);
    assert(s.subrange(b, b_end) =~= load5);
    assert(s.subrange(c, c_end) =~= load15);
}

/// The fields that a line splits into are words: none is empty and none
/// holds a blank, so none holds a line break.
pub proof fn lemma_fields_are_words(s: Seq<char>)
    requires
        first_three_fields(s) is Some,
    ensures
        ({
            let (load1, load5, load15) = first_three_fields(s).unwrap();
            &&& is_word(load1) && one_line(load1)
            &&& is_word(load5) && one_line(load5)
            &&& is_word(load15) && one_line(load15)
        }),
{
    let a = field_start(s, 0);
    lemma_next_where(s, 0, false);
    let a_end = field_end(s, a);
    lemma_next_where(s, a, true);
    let b = field_start(s, a_end);
    lemma_next_where(s, a_end, false);
    let b_end = field_end(s, b);
    lemma_next_where(s, b, true);
    let c = field_start(s, b_end);
    lemma_next_where(s, b_end, false);
    let c_end = field_end(s, c);
    lemma_next_where(s, c, true);
    let (load1, load5, load15) = first_three_fields(s).unwrap();
    assert forall|i: int| 0 <= i < load1.len() implies !is_blank(#[trigger] load1[i]) by {
        assert(load1[i] == s[a + i]);
    }
    assert forall|i: int| 0 <= i < load5.len() implies !is_blank(#[trigger] load5[i]) by {
        assert(load5[i] == s[b + i]);
    }
    assert forall|i: int| 0 <= i < load15.len() implies !is_blank(#[trigger] load15[i]) by {
        assert(load15[i] == s[c + i]);
    }
}

/// Splits a load-average line into its first three fields; `None` where the
/// line has fewer than three.
pub fn split_loadavg<'a>(content: &'a str) -> (fields: Option<LoadFields<'a>>)
    ensures
        match first_three_fields(content@) {
            Some((load1, load5, load15)) => fields matches Some(f) && f.load1@ == load1 && f.load5@
                == load5 && f.load15@ == load15,
            None => fields is None,
        },
{
    let ghost s = content@;
    let len = content.unicode_len();
    // how many fields have begun, and whether the last of them has ended
    let mut begun: u8 = 0;
    let mut inside = false;
    let mut a: usize = 0;
    let mut a_end: usize = 0;
    let mut b: usize = 0;
    let mut b_end: usize = 0;
    let mut c: usize = 0;
    let mut i: usize = 0;
    for ch in it: content.chars()
        invariant
            s == content@,
            len == s.len(),
            it.seq() == s,
            i == it.index(),
            begun <= 3,
            begun == 0 ==> !inside && field_start(s, i as int) == field_start(s, 0),
            begun >= 1 ==> a == field_start(s, 0) && a < i,
            begun == 1 && inside ==> field_end(s, i as int) == field_end(s, a as int),
            begun > 1 || (begun == 1 && !inside) ==> a_end == field_end(s, a as int) && a < a_end
                < i,
            begun == 1 && !inside ==> field_start(s, i as int) == field_start(s, a_end as int),
            begun >= 2 ==> b == field_start(s, a_end as int) && a_end < b < i,
            begun == 2 && inside ==> field_end(s, i as int) == field_end(s, b as int),
            begun > 2 || (begun == 2 && !inside) ==> b_end == field_end(s, b as int) && b < b_end
                < i,
            begun == 2 && !inside ==> field_start(s, i as int) == field_start(s, b_end as int),
            begun == 3 ==> inside && c == field_start(s, b_end as int) && b_end < c < i
                && field_end(s, i as int) == field_end(s, c as int),
    {
        if blank(ch) {
            if inside {
                if begun == 1 {
                    a_end = i;
                } else if begun == 2 {
                    b_end = i;
                } else {
                    return Some(
                        LoadFields {
                            load1: content.substring_char(a, a_end),
                            load5: content.substring_char(b, b_end),
                            load15: content.substring_char(c, i),
                        },
                    );
                }
                inside = false;
            }
        } else if !inside {
            if begun == 0 {
                a = i;
            } else if begun == 1 {
                b = i;
            } else {
                c = i;
            }
            begun += 1;
            inside = true;
        }
        i += 1;
    }
    if begun == 3 {
        Some(
            LoadFields {
                load1: content.substring_char(a, a_end),
                load5: content.substring_char(b, b_end),
                load15: content.substring_char(c, len),
            },
        )
    } else {
        None
    }
}

} // verus!
