//! Turns the markup of a statement into text for a terminal, in five steps.

pub mod monospace;
pub mod nesting;
pub mod newlines;
pub mod paint;
pub mod spaces;
pub mod whitespace;

pub use monospace::{format_edit_monospace, format_warning};
pub use nesting::format_add_reverse_nester_tags;
pub use newlines::format_remove_excessive_newlines;
pub use paint::format_paint_inner_blocks;
pub use spaces::format_trim_consecutive_spaces;
pub use whitespace::show_whitespace;

use crate::markup::{has_no_tag, lemma_no_code_span, lemma_no_tag, next_tag, Tag};
use crate::outputstyle::OutputStyle;
use crate::scan::{lemma_no_run, run_at};
use crate::text::{from_chars, to_chars};
use monospace::{edit_monospace, normalize_monospace, single_backticks};
use nesting::{add_nester_tags, add_reverse_nester_tags, unnested};
use newlines::{collapse_newlines, remove_excessive_newlines};
use paint::{paint_blocks, paint_inner_blocks, painted_tags};
use spaces::{
    lemma_squeezed_spaces_runs, lemma_squeezed_spaces_same, squeezed_spaces,
    trim_consecutive_spaces, trim_spaces,
};
use vstd::prelude::*;

verus! {

/// A statement as the terminal shows it: the monospace markup brought into
/// one form, runs of spaces outside code made one, one level of nesting
/// taken apart, every tag replaced by its body in the style of its kind,
/// and the line feeds and the end of the text tidied.
pub open spec fn formatted(s: Seq<char>, ostyle: OutputStyle) -> Seq<char> {
    collapse_newlines(
        paint_inner_blocks(
            add_reverse_nester_tags(trim_consecutive_spaces(normalize_monospace(s))),
            ostyle,
        ),
    )
}

/// Turns the markup of a statement into text for the terminal. Every text is
/// accepted: a marker without its partner stays as it is. The result of a
/// first pass is no statement: formatting it again may change it.
pub fn format_cg(text: &str, ostyle: &OutputStyle) -> (out: String)
    ensures
        out@ == formatted(text@, *ostyle),
{
    let chars = to_chars(text);
    let edited = edit_monospace(&chars);
    let trimmed = trim_spaces(&edited);
    let nested = add_nester_tags(&trimmed);
    let painted = paint_blocks(&nested, ostyle);
    from_chars(&remove_excessive_newlines(&painted))
}

/// The text holds no opening marker of any kind.
pub open spec fn has_no_tags(s: Seq<char>) -> bool {
    forall|tag: Tag| has_no_tag(s, tag)
}

/// Formatting a text without tags leaves its characters alone but for three
/// things: a run of spaces becomes one space, a run of three or more line
/// feeds becomes two, and the whitespace at the end goes. Where no two
/// spaces stand in a row, only the last two happen.
pub proof fn lemma_plain_text(s: Seq<char>, ostyle: OutputStyle)
    requires
        has_no_tags(s),
    ensures
        formatted(s, ostyle) == collapse_newlines(squeezed_spaces(s)),
        (forall|i: int| !run_at(s, ' ', 2, i)) ==> formatted(s, ostyle) == collapse_newlines(s),
{
    assert(has_no_tag(s, Tag::Monospace));
    assert(single_backticks(s, 0) == s) by {
        assert forall|i: int| !run_at(s, '`', 3, i) by {
            if run_at(s, '`', 3, i) {
                assert(run_at(s, '`', 1, i));
            }
        }
        lemma_no_run(s, '`', 3, 0);
        assert(s.subrange(0, s.len() as int) =~= s);
    }
    assert(normalize_monospace(s) == s) by {
        lemma_no_code_span(s, 0);
    }
    let t = squeezed_spaces(s);
    assert(trim_consecutive_spaces(s) == t) by {
        lemma_no_code_span(s, 0);
        assert(s.subrange(0, s.len() as int) =~= s);
    }
    assert(t.subrange(0, t.len() as int) =~= t);
    assert forall|tag: Tag| next_tag(t, tag, 0) is None by {
        assert(has_no_tag(s, tag));
        lemma_squeezed_spaces_runs(s, tag.opener(), tag.width());
        lemma_no_tag(t, tag, 0);
    }
    assert(add_reverse_nester_tags(t) == t) by {
        assert(next_tag(t, Tag::Bold, 0) is None);
        assert(next_tag(t, Tag::Monospace, 0) is None);
        assert(next_tag(t, Tag::Constant, 0) is None);
        assert(unnested(t, Tag::Bold, 0) == t);
        assert(unnested(t, Tag::Monospace, 0) == t);
    }
    assert(paint_inner_blocks(t, ostyle) == t) by {
        assert(next_tag(t, Tag::Variable, 0) is None);
        assert(next_tag(t, Tag::Constant, 0) is None);
        assert(next_tag(t, Tag::Bold, 0) is None);
        assert(next_tag(t, Tag::Monospace, 0) is None);
        assert(painted_tags(t, Tag::Variable, ostyle.variable, 0) == t);
        assert(painted_tags(t, Tag::Constant, ostyle.constant, 0) == t);
        assert(painted_tags(t, Tag::Bold, ostyle.bold, 0) == t);
    }
    if forall|i: int| !run_at(s, ' ', 2, i) {
        lemma_squeezed_spaces_same(s);
    }
}

} // verus!
