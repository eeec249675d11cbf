//! The third step: one level of nesting is taken apart.
//!
//! The kinds of tags are replaced one after the other, each without knowing
//! of the others, and a tag inside a tag of another kind would be misread.
//! So the outer tag is closed before the inner one and opened again behind
//! it, with its own markers:
//! `<<Next [[N]] lines>>` becomes `<<Next >>[[N]]<< lines>>`.

use crate::markup::{find_tag, lemma_next_tag, next_tag, Tag};
use crate::text::{copy_range, from_chars, push_all, push_range, to_chars};
use vstd::prelude::*;

verus! {

/// `s` from index `from` on, with every tag of kind `inner` fenced off from a
/// tag of kind `outer` around it: the closing marker of `outer` stands before
/// the inner tag and its opening marker behind it.
pub open spec fn fenced(s: Seq<char>, inner: Tag, outer: Tag, from: int) -> Seq<char>
    decreases s.len() - from,
    via fenced_decreases
{
    match next_tag(s, inner, from) {
        Some((i, j)) => s.subrange(from, i) + outer.close() + s.subrange(i, j) + outer.open()
            + fenced(s, inner, outer, j),
        None => s.subrange(from, s.len() as int),
    }
}

#[via_fn]
proof fn fenced_decreases(s: Seq<char>, inner: Tag, outer: Tag, from: int) {
    if from >= 0 {
        lemma_next_tag(s, inner, from);
    }
}

/// A whole tag of kind `outer` with the tags inside it fenced off. Bold and
/// monospace text may hold variables and constants; a constant may hold
/// variables.
pub open spec fn fenced_inside(whole: Seq<char>, outer: Tag) -> Seq<char> {
    if outer == Tag::Constant {
        fenced(whole, Tag::Variable, outer, 0)
    } else {
        fenced(fenced(whole, Tag::Variable, outer, 0), Tag::Constant, outer, 0)
    }
}

/// `s` from index `from` on, with the inside of every tag of kind `outer`
/// fenced.
pub open spec fn unnested(s: Seq<char>, outer: Tag, from: int) -> Seq<char>
    decreases s.len() - from,
    via unnested_decreases
{
    match next_tag(s, outer, from) {
        Some((i, j)) => s.subrange(from, i) + fenced_inside(s.subrange(i, j), outer) + unnested(
            s,
            outer,
            j,
        ),
        None => s.subrange(from, s.len() as int),
    }
}

#[via_fn]
proof fn unnested_decreases(s: Seq<char>, outer: Tag, from: int) {
    if from >= 0 {
        lemma_next_tag(s, outer, from);
    }
}

/// One level of nesting taken apart: first inside bold text, then inside
/// monospace text, then inside constants.
pub open spec fn add_reverse_nester_tags(s: Seq<char>) -> Seq<char> {
    unnested(unnested(unnested(s, Tag::Bold, 0), Tag::Monospace, 0), Tag::Constant, 0)
}

fn fence(s: &Vec<char>, inner: Tag, outer: Tag) -> (out: Vec<char>)
    ensures
        out@ == fenced(s@, inner, outer, 0),
{
    let mut out: Vec<char> = Vec::new();
    let mut pos: usize = 0;
    loop
        invariant_except_break
            pos <= s.len(),
            out@ + fenced(s@, inner, outer, pos as int) == fenced(s@, inner, outer, 0),
        ensures
            out@ == fenced(s@, inner, outer, 0),
        decreases s.len() - pos,
    {
        let ghost before = out@;
        match find_tag(s, inner, pos) {
            None => {
                push_range(&mut out, s, pos, s.len());
                break ;
            },
            Some((i, j)) => {
                push_range(&mut out, s, pos, i);
                outer.push_close(&mut out);
                push_range(&mut out, s, i, j);
                outer.push_open(&mut out);
                assert(out@ + fenced(s@, inner, outer, j as int) =~= before + fenced(
                    s@,
                    inner,
                    outer,
                    pos as int,
                ));
                pos = j;
            },
        }
    }
    out
}

fn fence_inside(whole: &Vec<char>, outer: Tag) -> (out: Vec<char>)
    ensures
        out@ == fenced_inside(whole@, outer),
{
    let variables = fence(whole, Tag::Variable, outer);
    match outer {
        Tag::Constant => variables,
        _ => fence(&variables, Tag::Constant, outer),
    }
}

fn unnest(s: &Vec<char>, outer: Tag) -> (out: Vec<char>)
    ensures
        out@ == unnested(s@, outer, 0),
{
    let mut out: Vec<char> = Vec::new();
    let mut pos: usize = 0;
    loop
        invariant_except_break
            pos <= s.len(),
            out@ + unnested(s@, outer, pos as int) == unnested(s@, outer, 0),
        ensures
            out@ == unnested(s@, outer, 0),
        decreases s.len() - pos,
    {
        let ghost before = out@;
        match find_tag(s, outer, pos) {
            None => {
                push_range(&mut out, s, pos, s.len());
                break ;
            },
            Some((i, j)) => {
                push_range(&mut out, s, pos, i);
                let whole = copy_range(s, i, j);
                let inside = fence_inside(&whole, outer);
                push_all(&mut out, &inside);
                assert(out@ + unnested(s@, outer, j as int) =~= before + unnested(
                    s@,
                    outer,
                    pos as int,
                ));
                pos = j;
            },
        }
    }
    out
}

pub(crate) fn add_nester_tags(s: &Vec<char>) -> (out: Vec<char>)
    ensures
        out@ == add_reverse_nester_tags(s@),
{
    let bold = unnest(s, Tag::Bold);
    let mono = unnest(&bold, Tag::Monospace);
    unnest(&mono, Tag::Constant)
}

/// Takes one level of nesting apart: a variable or a constant inside bold or
/// monospace text, and a variable inside a constant, is fenced off with the
/// markers of the tag around it. Bold text is handled first, then monospace
/// text, then constants. Deeper nesting is left as it is.
pub fn format_add_reverse_nester_tags(text: &str) -> (out: String)
    ensures
        out@ == add_reverse_nester_tags(text@),
{
    let chars = to_chars(text);
    from_chars(&add_nester_tags(&chars))
}

} // verus!
