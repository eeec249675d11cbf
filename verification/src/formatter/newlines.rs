//! The fifth step: long runs of line feeds shrink, and the text loses the
//! whitespace at its end.

use crate::scan::{skip_spaces_back, space_run_start};
use crate::text::{copy_range, from_chars, to_chars};
use vstd::prelude::*;

verus! {

/// `s` with every run of three or more line feeds made two: a line feed that
/// follows two line feeds is left out.
pub open spec fn squeezed_newlines(s: Seq<char>) -> Seq<char>
    decreases s.len(),
{
    if s.len() == 0 {
        s
    } else if s.last() == '\n' && s.len() >= 3 && s[s.len() - 2] == '\n' && s[s.len() - 3]
        == '\n' {
        squeezed_newlines(s.drop_last())
    } else {
        squeezed_newlines(s.drop_last()).push(s.last())
    }
}

/// `s` without the whitespace at its end.
pub open spec fn stripped_end(s: Seq<char>) -> Seq<char> {
    s.take(space_run_start(s, 0, s.len() as int))
}

/// Runs of three or more line feeds made two, and the whitespace at the end
/// taken away.
pub open spec fn collapse_newlines(s: Seq<char>) -> Seq<char> {
    stripped_end(squeezed_newlines(s))
}

fn squeeze_newlines(src: &Vec<char>) -> (out: Vec<char>)
    ensures
        out@ == squeezed_newlines(src@),
{
    let mut out: Vec<char> = Vec::new();
    let mut i: usize = 0;
    while i < src.len()
        invariant
            i <= src.len(),
            out@ == squeezed_newlines(src@.take(i as int)),
        decreases src.len() - i,
    {
        let ghost next = src@.take(i + 1);
        assert(next.drop_last() =~= src@.take(i as int));
        if !(src[i] == '\n' && i >= 2 && src[i - 1] == '\n' && src[i - 2] == '\n') {
            out.push(src[i]);
        }
        i += 1;
    }
    assert(src@.take(src.len() as int) =~= src@);
    out
}

fn strip_end(src: &Vec<char>) -> (out: Vec<char>)
    ensures
        out@ == stripped_end(src@),
{
    let end = skip_spaces_back(src, 0, src.len());
    let out = copy_range(src, 0, end);
    assert(src@.subrange(0, end as int) =~= src@.take(end as int));
    out
}

pub(crate) fn remove_excessive_newlines(s: &Vec<char>) -> (out: Vec<char>)
    ensures
        out@ == collapse_newlines(s@),
{
    let squeezed = squeeze_newlines(s);
    strip_end(&squeezed)
}

/// Makes every run of three or more line feeds two, and takes the
/// whitespace at the end of the text away.
pub fn format_remove_excessive_newlines(text: &str) -> (out: String)
    ensures
        out@ == collapse_newlines(text@),
{
    let chars = to_chars(text);
    from_chars(&remove_excessive_newlines(&chars))
}

} // verus!
