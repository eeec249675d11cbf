//! The lines of a text.

use crate::scan::{find_run, first_run, lemma_first_run, run_at};
use crate::text::{copy_range, from_chars, to_chars, views};
use vstd::prelude::*;

verus! {

/// The index behind the line that starts at index `from`: behind its line
/// feed, or the end of the text where no line feed follows.
pub open spec fn line_end(s: Seq<char>, from: int) -> int {
    let feed = first_run(s, '\n', 1, from);
    if feed < s.len() {
        feed + 1
    } else {
        s.len() as int
    }
}

/// The lines of `s` from index `from` on. A line ends behind its line feed;
/// the last line of a text that does not end in a line feed has none.
pub open spec fn lines_from(s: Seq<char>, from: int) -> Seq<Seq<char>>
    decreases s.len() - from,
    via lines_from_decreases
{
    if from < 0 || from >= s.len() {
        Seq::empty()
    } else {
        seq![s.subrange(from, line_end(s, from))] + lines_from(s, line_end(s, from))
    }
}

#[via_fn]
proof fn lines_from_decreases(s: Seq<char>, from: int) {
    if 0 <= from < s.len() {
        lemma_first_run(s, '\n', 1, from);
    }
}

/// The lines of `s`, each with its line feed.
pub open spec fn lines(s: Seq<char>) -> Seq<Seq<char>> {
    lines_from(s, 0)
}

pub(crate) fn split_lines_chars(s: &Vec<char>) -> (out: Vec<Vec<char>>)
    ensures
        views(out@) == lines(s@),
{
    let mut out: Vec<Vec<char>> = Vec::new();
    let mut pos: usize = 0;
    assert(views(out@) =~= Seq::<Seq<char>>::empty());
    while pos < s.len()
        invariant
            pos <= s.len(),
            views(out@) + lines_from(s@, pos as int) == lines_from(s@, 0),
        decreases s.len() - pos,
    {
        let ghost before = views(out@);
        let feed = find_run(s, '\n', 1, pos);
        let end = if feed < s.len() {
            feed + 1
        } else {
            s.len()
        };
        out.push(copy_range(s, pos, end));
        assert(views(out@) =~= before.push(s@.subrange(pos as int, end as int)));
        assert(views(out@) + lines_from(s@, end as int) =~= before + lines_from(s@, pos as int));
        pos = end;
    }
    out
}

/// Splits `text` into its lines, from first to last. Every line keeps its
/// line feed, so that the lines in a row are the text again.
pub fn split_lines(text: &str) -> (out: Vec<String>)
    ensures
        views(out@) == lines(text@),
{
    let chars = to_chars(text);
    let split = split_lines_chars(&chars);
    let mut out: Vec<String> = Vec::new();
    let mut i: usize = 0;
    while i < split.len()
        invariant
            i <= split.len(),
            out.len() == i,
            forall|k: int| 0 <= k < i ==> out[k]@ == split[k]@,
        decreases split.len() - i,
    {
        out.push(from_chars(&split[i]));
        i += 1;
    }
    assert(views(out@) =~= views(split@));
    out
}

proof fn lemma_lines_from_join(s: Seq<char>, from: int)
    requires
        0 <= from <= s.len(),
    ensures
        lines_from(s, from).flatten() == s.subrange(from, s.len() as int),
    decreases s.len() - from,
{
    if from < s.len() {
        lemma_first_run(s, '\n', 1, from);
        let end = line_end(s, from);
        lemma_lines_from_join(s, end);
        let head = s.subrange(from, end);
        let rest = lines_from(s, end);
        let all = seq![head] + rest;
        assert(all.first() == head);
        assert(all.drop_first() =~= rest);
        assert(head + s.subrange(end, s.len() as int) =~= s.subrange(from, s.len() as int));
    } else {
        assert(s.subrange(from, s.len() as int) =~= Seq::empty());
    }
}

/// Splitting loses nothing: the lines of a text, one after the other, are
/// the text, whether or not it ends in a line feed.
pub proof fn lemma_lines_join(s: Seq<char>)
    ensures
        lines(s).flatten() == s,
{
    lemma_lines_from_join(s, 0);
    assert(s.subrange(0, s.len() as int) =~= s);
}

proof fn lemma_lines_from_shape(s: Seq<char>, from: int, i: int)
    requires
        0 <= from <= s.len(),
        0 <= i < lines_from(s, from).len(),
    ensures
        lines_from(s, from)[i].len() > 0,
        forall|k: int|
            0 <= k < lines_from(s, from)[i].len() - 1 ==> lines_from(s, from)[i][k] != '\n',
        i < lines_from(s, from).len() - 1 ==> lines_from(s, from)[i].last() == '\n',
    decreases s.len() - from,
{
    lemma_first_run(s, '\n', 1, from);
    let end = line_end(s, from);
    let head = s.subrange(from, end);
    let rest = lines_from(s, end);
    assert(lines_from(s, from) == seq![head] + rest);
    if i == 0 {
        assert forall|k: int| 0 <= k < head.len() - 1 implies head[k] != '\n' by {
            if head[k] == '\n' {
                assert(run_at(s, '\n', 1, from + k));
            }
        }
        if rest.len() > 0 {
            assert(end < s.len());
        }
    } else {
        lemma_lines_from_shape(s, end, i - 1);
        assert((seq![head] + rest)[i] == rest[i - 1]);
    }
}

/// Every line holds at least one character, holds a line feed as its last
/// character or not at all, and ends in one unless it is the last line.
pub proof fn lemma_lines_shape(s: Seq<char>, i: int)
    requires
        0 <= i < lines(s).len(),
    ensures
        lines(s)[i].len() > 0,
        forall|k: int| 0 <= k < lines(s)[i].len() - 1 ==> lines(s)[i][k] != '\n',
        i < lines(s).len() - 1 ==> lines(s)[i].last() == '\n',
{
    lemma_lines_from_shape(s, 0, i);
}

} // verus!
