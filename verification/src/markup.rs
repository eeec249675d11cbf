//! The markup of a statement: its four tag forms, the search for the next
//! tag of a kind, and the search for the next code span.
//!
//! A tag is found as a regular expression with a lazy body finds it: the
//! leftmost opening marker that a closing marker follows, and the first
//! closing marker behind it. In that notation the four tags are
//! `\[\[(.*?)\]\]`, `\{\{(.*?)\}\}`, `<<(.*?)>>` and `` `([^`]*?)` ``, where
//! `.` stands for every character, the line feed too. A code span is
//! `` `[^`]+` ``: monospace text that is not empty.

use crate::scan::{
    find_run, first_run, lemma_first_run, lemma_first_run_shift, lemma_no_run, run_at,
};
use vstd::prelude::*;

verus! {

/// A tag form. A variable is written `[[..]]`, a constant `{{..}}`, bold text
/// `<<..>>`, and monospace text between two backticks.
#[derive(Clone, Copy, Debug, PartialEq, Eq)]
pub enum Tag {
    Variable,
    Constant,
    Bold,
    Monospace,
}

impl Tag {
    /// The character that the opening marker is made of.
    pub open spec fn opener(self) -> char {
        match self {
            Tag::Variable => '[',
            Tag::Constant => '{',
            Tag::Bold => '<',
            Tag::Monospace => '`',
        }
    }

    /// The character that the closing marker is made of.
    pub open spec fn closer(self) -> char {
        match self {
            Tag::Variable => ']',
            Tag::Constant => '}',
            Tag::Bold => '>',
            Tag::Monospace => '`',
        }
    }

    /// How many times a marker repeats its character.
    pub open spec fn width(self) -> int {
        match self {
            Tag::Monospace => 1,
            _ => 2,
        }
    }

    /// The opening marker.
    pub open spec fn open(self) -> Seq<char> {
        Seq::new(self.width() as nat, |k: int| self.opener())
    }

    /// The closing marker.
    pub open spec fn close(self) -> Seq<char> {
        Seq::new(self.width() as nat, |k: int| self.closer())
    }

    /// The character that the opening marker is made of.
    pub(crate) fn open_char(self) -> (c: char)
        ensures
            c == self.opener(),
    {
        match self {
            Tag::Variable => '[',
            Tag::Constant => '{',
            Tag::Bold => '<',
            Tag::Monospace => '`',
        }
    }

    /// The character that the closing marker is made of.
    pub(crate) fn close_char(self) -> (c: char)
        ensures
            c == self.closer(),
    {
        match self {
            Tag::Variable => ']',
            Tag::Constant => '}',
            Tag::Bold => '>',
            Tag::Monospace => '`',
        }
    }

    /// How many times a marker repeats its character.
    pub(crate) fn marker_len(self) -> (n: usize)
        ensures
            n == self.width(),
    {
        match self {
            Tag::Monospace => 1,
            _ => 2,
        }
    }

    /// Appends the opening marker to `out`.
    pub(crate) fn push_open(self, out: &mut Vec<char>)
        ensures
            final(out)@ == old(out)@ + self.open(),
    {
        out.push(self.open_char());
        if self.marker_len() == 2 {
            out.push(self.open_char());
        }
        assert(out@ =~= old(out)@ + self.open());
    }

    /// Appends the closing marker to `out`.
    pub(crate) fn push_close(self, out: &mut Vec<char>)
        ensures
            final(out)@ == old(out)@ + self.close(),
    {
        out.push(self.close_char());
        if self.marker_len() == 2 {
            out.push(self.close_char());
        }
        assert(out@ =~= old(out)@ + self.close());
    }
}

/// The next tag of kind `tag` that starts at or after `from`, as the index of
/// its first character and the index after its last: the first opening
/// marker, and the first closing marker behind it. A tag may span lines.
pub open spec fn next_tag(s: Seq<char>, tag: Tag, from: int) -> Option<(int, int)> {
    let i = first_run(s, tag.opener(), tag.width(), from);
    let j = first_run(s, tag.closer(), tag.width(), i + tag.width());
    if i < s.len() && j < s.len() {
        Some((i, j + tag.width()))
    } else {
        None
    }
}

/// A tag that `next_tag` finds lies within the text, behind `from`, and
/// holds both of its markers. It is the leftmost and the shortest: no
/// opening marker stands between `from` and the tag, and no closing marker
/// inside its body.
pub proof fn lemma_next_tag(s: Seq<char>, tag: Tag, from: int)
    requires
        0 <= from,
    ensures
        match next_tag(s, tag, from) {
            Some((i, j)) => {
                &&& from <= i
                &&& i + 2 * tag.width() <= j <= s.len()
                &&& run_at(s, tag.opener(), tag.width(), i)
                &&& run_at(s, tag.closer(), tag.width(), j - tag.width())
                &&& forall|k: int| from <= k < i ==> !run_at(s, tag.opener(), tag.width(), k)
                &&& forall|k: int|
                    i + tag.width() <= k < j - tag.width() ==> !run_at(
                        s,
                        tag.closer(),
                        tag.width(),
                        k,
                    )
            },
            None => true,
        },
{
    let i = first_run(s, tag.opener(), tag.width(), from);
    lemma_first_run(s, tag.opener(), tag.width(), from);
    lemma_first_run(s, tag.closer(), tag.width(), i + tag.width());
}

/// The text holds no opening marker of the kind `tag`.
pub open spec fn has_no_tag(s: Seq<char>, tag: Tag) -> bool {
    forall|i: int| !run_at(s, tag.opener(), tag.width(), i)
}

/// Where no opening marker stands, no tag is found.
pub proof fn lemma_no_tag(s: Seq<char>, tag: Tag, from: int)
    requires
        0 <= from,
        has_no_tag(s, tag),
    ensures
        next_tag(s, tag, from) is None,
{
    lemma_no_run(s, tag.opener(), tag.width(), from);
}

/// Finds the next tag of kind `tag` at or after `from`: the index of its
/// first character and the index behind its last.
pub fn find_tag(s: &Vec<char>, tag: Tag, from: usize) -> (found: Option<(usize, usize)>)
    ensures
        match found {
            Some((i, j)) => {
                &&& next_tag(s@, tag, from as int) == Some((i as int, j as int))
                &&& from <= i
                &&& i + 2 * tag.width() <= j <= s.len()
            },
            None => next_tag(s@, tag, from as int) is None,
        },
{
    let w = tag.marker_len();
    let i = find_run(s, tag.open_char(), w, from);
    if i >= s.len() {
        return None;
    }
    let j = find_run(s, tag.close_char(), w, i + w);
    if j >= s.len() {
        return None;
    }
    proof {
        lemma_next_tag(s@, tag, from as int);
    }
    Some((i, j + w))
}

/// The next code span, that is a backtick at or after `from`, one or more
/// characters that are no backticks, and a backtick: the indices of the two
/// backticks. A backtick that the next one follows at once opens no span.
pub open spec fn next_code_span(s: Seq<char>, from: int) -> Option<(int, int)>
    decreases s.len() - from,
    via next_code_span_decreases
{
    let open = first_run(s, '`', 1, from);
    let close = first_run(s, '`', 1, open + 1);
    if close >= s.len() {
        None
    } else if close > open + 1 {
        Some((open, close))
    } else {
        next_code_span(s, close)
    }
}

#[via_fn]
proof fn next_code_span_decreases(s: Seq<char>, from: int) {
    if from >= 0 {
        lemma_first_run(s, '`', 1, from);
        lemma_first_run(s, '`', 1, first_run(s, '`', 1, from) + 1);
    }
}

/// A code span that `next_code_span` finds lies within the text, behind
/// `from`, and holds no backtick between its two.
pub proof fn lemma_next_code_span(s: Seq<char>, from: int)
    requires
        0 <= from,
    ensures
        match next_code_span(s, from) {
            Some((open, close)) => {
                &&& from <= open
                &&& open + 2 <= close < s.len()
                &&& s[open] == '`'
                &&& s[close] == '`'
                &&& forall|k: int| open < k < close ==> s[k] != '`'
            },
            None => true,
        },
    decreases s.len() - from,
{
    let open = first_run(s, '`', 1, from);
    let close = first_run(s, '`', 1, open + 1);
    lemma_first_run(s, '`', 1, from);
    lemma_first_run(s, '`', 1, open + 1);
    if close < s.len() {
        if close > open + 1 {
            assert(run_at(s, '`', 1, open));
            assert(run_at(s, '`', 1, close));
            assert forall|k: int| open < k < close implies s[k] != '`' by {
                if s[k] == '`' {
                    assert(run_at(s, '`', 1, k));
                }
            }
        } else {
            lemma_next_code_span(s, close);
        }
    }
}

/// Where no backtick stands, no code span is found.
pub proof fn lemma_no_code_span(s: Seq<char>, from: int)
    requires
        0 <= from,
        has_no_tag(s, Tag::Monospace),
    ensures
        next_code_span(s, from) is None,
{
    assert forall|i: int| !run_at(s, '`', 1, i) by {
        assert(!run_at(s, Tag::Monospace.opener(), Tag::Monospace.width(), i));
    }
    lemma_no_run(s, '`', 1, from);
    lemma_first_run(s, '`', 1, s.len() as int + 1);
}

/// The code spans behind a prefix are those of the rest, moved by the length
/// of the prefix.
pub proof fn lemma_next_code_span_shift(pre: Seq<char>, rest: Seq<char>, from: int)
    requires
        0 <= from,
    ensures
        next_code_span(pre + rest, pre.len() + from) == match next_code_span(rest, from) {
            Some((open, close)) => Some((pre.len() + open, pre.len() + close)),
            None => None,
        },
    decreases rest.len() - from,
{
    let open = first_run(rest, '`', 1, from);
    let close = first_run(rest, '`', 1, open + 1);
    lemma_first_run(rest, '`', 1, from);
    lemma_first_run(rest, '`', 1, open + 1);
    lemma_first_run_shift(pre, rest, '`', 1, from);
    lemma_first_run_shift(pre, rest, '`', 1, open + 1);
    if close < rest.len() && close <= open + 1 {
        lemma_next_code_span_shift(pre, rest, close);
    }
}

/// Finds the next code span at or after `from`: the indices of its two
/// backticks.
pub fn find_code_span(s: &Vec<char>, from: usize) -> (found: Option<(usize, usize)>)
    ensures
        match found {
            Some((open, close)) => {
                &&& next_code_span(s@, from as int) == Some((open as int, close as int))
                &&& from <= open
                &&& open + 2 <= close < s.len()
            },
            None => next_code_span(s@, from as int) is None,
        },
{
    if from > s.len() {
        proof {
            lemma_first_run(s@, '`', 1, from as int);
            lemma_first_run(s@, '`', 1, s.len() + 1);
        }
        return None;
    }
    let mut pos: usize = from;
    loop
        invariant
            from <= pos <= s.len(),
            next_code_span(s@, pos as int) == next_code_span(s@, from as int),
        decreases s.len() - pos,
    {
        let open = find_run(s, '`', 1, pos);
        if open >= s.len() {
            proof {
                lemma_first_run(s@, '`', 1, open + 1);
            }
            return None;
        }
        let close = find_run(s, '`', 1, open + 1);
        if close >= s.len() {
            return None;
        }
        if close > open + 1 {
            return Some((open, close));
        }
        pos = close;
    }
}

} // verus!
