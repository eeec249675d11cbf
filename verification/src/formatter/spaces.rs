//! The second step: runs of spaces become one space, but not inside code.

use crate::markup::{
    find_code_span, has_no_tag, lemma_next_code_span, lemma_next_code_span_shift, next_code_span,
    Tag,
};
use crate::scan::{lemma_first_run_is, lemma_run_at_prefix, run_at};
use crate::text::{from_chars, push_range, to_chars};
use vstd::prelude::*;

verus! {

/// `s` with every run of spaces made one space: a space that follows a space
/// is left out.
pub open spec fn squeezed_spaces(s: Seq<char>) -> Seq<char>
    decreases s.len(),
{
    if s.len() == 0 {
        s
    } else if s.last() == ' ' && s.len() >= 2 && s[s.len() - 2] == ' ' {
        squeezed_spaces(s.drop_last())
    } else {
        squeezed_spaces(s.drop_last()).push(s.last())
    }
}

/// `s` from index `from` on, with every run of spaces outside the code spans
/// made one space. The text is taken as code spans and the stretches between
/// them, from left to right.
pub open spec fn squeezed_outside_code(s: Seq<char>, from: int) -> Seq<char>
    decreases s.len() - from,
    via squeezed_outside_code_decreases
{
    match next_code_span(s, from) {
        Some((open, close)) => squeezed_spaces(s.subrange(from, open)) + s.subrange(
            open,
            close + 1,
        ) + squeezed_outside_code(s, close + 1),
        None => squeezed_spaces(s.subrange(from, s.len() as int)),
    }
}

#[via_fn]
proof fn squeezed_outside_code_decreases(s: Seq<char>, from: int) {
    if from >= 0 {
        lemma_next_code_span(s, from);
    }
}

/// Every run of spaces outside the code spans made one space.
pub open spec fn trim_consecutive_spaces(s: Seq<char>) -> Seq<char> {
    squeezed_outside_code(s, 0)
}

fn push_squeezed_spaces(out: &mut Vec<char>, src: &Vec<char>, from: usize, to: usize)
    requires
        from <= to <= src.len(),
    ensures
        final(out)@ == old(out)@ + squeezed_spaces(src@.subrange(from as int, to as int)),
{
    let mut i: usize = from;
    while i < to
        invariant
            from <= i <= to <= src.len(),
            out@ == old(out)@ + squeezed_spaces(src@.subrange(from as int, i as int)),
        decreases to - i,
    {
        let ghost next = src@.subrange(from as int, i + 1);
        assert(next.drop_last() =~= src@.subrange(from as int, i as int));
        if !(src[i] == ' ' && i > from && src[i - 1] == ' ') {
            out.push(src[i]);
        }
        i += 1;
    }
}

pub(crate) fn trim_spaces(s: &Vec<char>) -> (out: Vec<char>)
    ensures
        out@ == trim_consecutive_spaces(s@),
{
    let mut out: Vec<char> = Vec::new();
    let mut pos: usize = 0;
    loop
        invariant_except_break
            pos <= s.len(),
            out@ + squeezed_outside_code(s@, pos as int) == squeezed_outside_code(s@, 0),
        ensures
            out@ == squeezed_outside_code(s@, 0),
        decreases s.len() - pos,
    {
        let ghost before = out@;
        match find_code_span(s, pos) {
            None => {
                push_squeezed_spaces(&mut out, s, pos, s.len());
                break ;
            },
            Some((open, close)) => {
                push_squeezed_spaces(&mut out, s, pos, open);
                push_range(&mut out, s, open, close + 1);
                assert(out@ + squeezed_outside_code(s@, close + 1) =~= before
                    + squeezed_outside_code(s@, pos as int));
                pos = close + 1;
            },
        }
    }
    out
}

/// Makes every run of spaces outside the code spans one space. Inside a code
/// span nothing changes; tabs and line feeds stay everywhere.
pub fn format_trim_consecutive_spaces(text: &str) -> (out: String)
    ensures
        out@ == trim_consecutive_spaces(text@),
{
    let chars = to_chars(text);
    from_chars(&trim_spaces(&chars))
}

/// Squeezing keeps the last character, and so leaves no text empty.
pub proof fn lemma_squeezed_spaces_last(s: Seq<char>)
    ensures
        squeezed_spaces(s).len() > 0 <==> s.len() > 0,
        s.len() > 0 ==> squeezed_spaces(s).last() == s.last(),
    decreases s.len(),
{
    if s.len() > 0 {
        lemma_squeezed_spaces_last(s.drop_last());
    }
}

/// Squeezing spaces brings no two characters together that stood apart, so
/// it makes no run of one or two characters that was not there.
pub proof fn lemma_squeezed_spaces_runs(s: Seq<char>, c: char, n: int)
    requires
        1 <= n <= 2,
        forall|i: int| !run_at(s, c, n, i),
    ensures
        forall|i: int| !run_at(squeezed_spaces(s), c, n, i),
    decreases s.len(),
{
    let squeezed = squeezed_spaces(s);
    if s.len() > 0 {
        let head = s.drop_last();
        assert forall|i: int| !run_at(head, c, n, i) by {
            if run_at(head, c, n, i) {
                lemma_run_at_prefix(s, s.len() - 1, c, n, i);
            }
        }
        lemma_squeezed_spaces_runs(head, c, n);
        lemma_squeezed_spaces_last(head);
        let before = squeezed_spaces(head);
        assert forall|i: int| !run_at(squeezed, c, n, i) by {
            if run_at(squeezed, c, n, i) && squeezed != before {
                assert(squeezed == before.push(s.last()));
                if i + n <= before.len() {
                    assert(run_at(before, c, n, i)) by {
                        assert forall|k: int| i <= k < i + n implies before[k] == c by {
                            assert(squeezed[k] == before[k]);
                        }
                    }
                } else {
                    assert(squeezed[squeezed.len() - 1] == c);
                    if n == 2 {
                        assert(squeezed[squeezed.len() - 2] == c);
                        assert(before.last() == head.last());
                    }
                    assert(run_at(s, c, n, s.len() - n));
                }
            }
        }
    } else {
        assert forall|i: int| !run_at(squeezed, c, n, i) by {
            if run_at(squeezed, c, n, i) {
                assert(squeezed[i] == c);
            }
        }
    }
}

/// A text without two spaces in a row stays as it is.
pub proof fn lemma_squeezed_spaces_same(s: Seq<char>)
    requires
        forall|i: int| !run_at(s, ' ', 2, i),
    ensures
        squeezed_spaces(s) == s,
    decreases s.len(),
{
    if s.len() > 0 {
        let head = s.drop_last();
        assert forall|i: int| !run_at(head, ' ', 2, i) by {
            if run_at(head, ' ', 2, i) {
                lemma_run_at_prefix(s, s.len() - 1, ' ', 2, i);
            }
        }
        lemma_squeezed_spaces_same(head);
        if s.len() >= 2 && s.last() == ' ' && s[s.len() - 2] == ' ' {
            assert(run_at(s, ' ', 2, s.len() - 2));
        }
        assert(head.push(s.last()) =~= s);
    }
}

proof fn lemma_squeezed_outside_code_shift(pre: Seq<char>, rest: Seq<char>, from: int)
    requires
        0 <= from <= rest.len(),
    ensures
        squeezed_outside_code(pre + rest, pre.len() + from) == squeezed_outside_code(rest, from),
    decreases rest.len() - from,
{
    let all = pre + rest;
    lemma_next_code_span_shift(pre, rest, from);
    lemma_next_code_span(rest, from);
    match next_code_span(rest, from) {
        Some((open, close)) => {
            lemma_squeezed_outside_code_shift(pre, rest, close + 1);
            assert(all.subrange(pre.len() + from, pre.len() + open) =~= rest.subrange(from, open));
            assert(all.subrange(pre.len() + open, pre.len() + close + 1) =~= rest.subrange(
                open,
                close + 1,
            ));
        },
        None => {
            assert(all.subrange(pre.len() + from, all.len() as int) =~= rest.subrange(
                from,
                rest.len() as int,
            ));
        },
    }
}

/// The trim takes a text apart at its first code span: what stands before
/// the span has its runs of spaces made one, the span stays as it is, and
/// what follows is trimmed on its own. So every code span in turn comes out
/// as it went in. A text without a code span has its runs of spaces made
/// one throughout.
pub proof fn lemma_trim_splits_at_code(s: Seq<char>)
    ensures
        match next_code_span(s, 0) {
            Some((open, close)) => trim_consecutive_spaces(s) == squeezed_spaces(s.take(open))
                + s.subrange(open, close + 1) + trim_consecutive_spaces(s.skip(close + 1)),
            None => trim_consecutive_spaces(s) == squeezed_spaces(s),
        },
{
    lemma_next_code_span(s, 0);
    match next_code_span(s, 0) {
        Some((open, close)) => {
            let pre = s.take(close + 1);
            let rest = s.skip(close + 1);
            assert(pre + rest =~= s);
            lemma_squeezed_outside_code_shift(pre, rest, 0);
            assert(s.subrange(0, open) =~= s.take(open));
        },
        None => {
            assert(s.subrange(0, s.len() as int) =~= s);
        },
    }
}

/// The code spans of `s` from index `from` on, from left to right, each as
/// the indices of its two backticks.
pub open spec fn code_spans_from(s: Seq<char>, from: int) -> Seq<(int, int)>
    decreases s.len() - from,
    via code_spans_from_decreases
{
    match next_code_span(s, from) {
        Some((open, close)) => seq![(open, close)] + code_spans_from(s, close + 1),
        None => Seq::empty(),
    }
}

#[via_fn]
proof fn code_spans_from_decreases(s: Seq<char>, from: int) {
    if from >= 0 {
        lemma_next_code_span(s, from);
    }
}

/// `part` stands in `text` at index `at`.
pub open spec fn stands_at(text: Seq<char>, part: Seq<char>, at: int) -> bool {
    0 <= at && at + part.len() <= text.len() && text.subrange(at, at + part.len()) == part
}

proof fn lemma_code_spans_stay_from(s: Seq<char>, from: int, k: int) -> (at: int)
    requires
        0 <= from,
        0 <= k < code_spans_from(s, from).len(),
    ensures
        stands_at(
            squeezed_outside_code(s, from),
            s.subrange(code_spans_from(s, from)[k].0, code_spans_from(s, from)[k].1 + 1),
            at,
        ),
    decreases s.len() - from,
{
    lemma_next_code_span(s, from);
    let (open, close) = next_code_span(s, from)->0;
    let before = squeezed_spaces(s.subrange(from, open));
    let span = s.subrange(open, close + 1);
    let rest = squeezed_outside_code(s, close + 1);
    let all = before + span + rest;
    if k == 0 {
        let at = before.len() as int;
        assert(all.subrange(at, at + span.len()) =~= span);
        at
    } else {
        assert(code_spans_from(s, from)[k] == code_spans_from(s, close + 1)[k - 1]);
        let inner = lemma_code_spans_stay_from(s, close + 1, k - 1);
        let (o, c) = code_spans_from(s, close + 1)[k - 1];
        let part = s.subrange(o, c + 1);
        let at = before.len() + span.len() + inner;
        assert(all.subrange(at, at + part.len()) =~= rest.subrange(inner, inner + part.len()));
        at
    }
}

/// Every code span of a text stands in the trimmed text as it stood in the
/// text, its two backticks and all between them. So a run of spaces inside
/// a code span comes through the trim untouched.
pub proof fn lemma_code_spans_stay(s: Seq<char>, k: int)
    requires
        0 <= k < code_spans_from(s, 0).len(),
    ensures
        exists|at: int| #[trigger]
            stands_at(
                trim_consecutive_spaces(s),
                s.subrange(code_spans_from(s, 0)[k].0, code_spans_from(s, 0)[k].1 + 1),
                at,
            ),
{
    let at = lemma_code_spans_stay_from(s, 0, k);
    assert(stands_at(
        trim_consecutive_spaces(s),
        s.subrange(code_spans_from(s, 0)[k].0, code_spans_from(s, 0)[k].1 + 1),
        at,
    ));
}

/// Spaces inside a code span stay as they are. Where a code span follows
/// text without backticks, the body of the span comes out as it went in,
/// however many spaces it holds in a row; the text before the span has its
/// runs of spaces made one, and what follows the span is trimmed on its own.
pub proof fn lemma_code_span_keeps_spaces(before: Seq<char>, body: Seq<char>, after: Seq<char>)
    requires
        has_no_tag(before, Tag::Monospace),
        has_no_tag(body, Tag::Monospace),
        body.len() > 0,
    ensures
        trim_consecutive_spaces(before + seq!['`'] + body + seq!['`'] + after) == squeezed_spaces(
            before,
        ) + seq!['`'] + body + seq!['`'] + trim_consecutive_spaces(after),
{
    let pre = before + seq!['`'] + body + seq!['`'];
    let all = pre + after;
    let open = before.len() as int;
    let close = open + 1 + body.len();
    assert forall|k: int| 0 <= k < open implies !run_at(all, '`', 1, k) by {
        assert(!run_at(before, Tag::Monospace.opener(), Tag::Monospace.width(), k));
        assert(all[k] == before[k]);
    }
    assert(all[open] == '`');
    assert(run_at(all, '`', 1, open));
    lemma_first_run_is(all, '`', 1, 0, open);
    assert forall|k: int| open + 1 <= k < close implies !run_at(all, '`', 1, k) by {
        assert(!run_at(body, Tag::Monospace.opener(), Tag::Monospace.width(), k - open - 1));
        assert(all[k] == body[k - open - 1]);
    }
    assert(all[close] == '`');
    assert(run_at(all, '`', 1, close));
    lemma_first_run_is(all, '`', 1, open + 1, close);
    assert(next_code_span(all, 0) == Some((open, close)));
    lemma_squeezed_outside_code_shift(pre, after, 0);
    assert(all.subrange(0, open) =~= before);
    assert(all.subrange(open, close + 1) =~= seq!['`'] + body + seq!['`']);
    assert(squeezed_spaces(before) + (seq!['`'] + body + seq!['`']) + trim_consecutive_spaces(after)
        =~= squeezed_spaces(before) + seq!['`'] + body + seq!['`'] + trim_consecutive_spaces(
        after,
    ));
}

} // verus!
