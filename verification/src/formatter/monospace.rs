//! The first step: the monospace markup is brought into one form, and a
//! statement in the obsolete form is noticed.

use crate::markup::{find_code_span, lemma_next_code_span, next_code_span};
use crate::outputstyle::{painted, OutputStyle};
use crate::scan::{
    find_run, first_run, is_run_at, lemma_first_run, lemma_space_run_end, run_at, skip_spaces,
    skip_spaces_back, space_run_end, space_run_start,
};
use crate::text::{copy_range, from_chars, push_range, to_chars};
use vstd::prelude::*;
use vstd::string::StringExecFns;

verus! {

/// `s` from index `from` on, with every three backticks in a row made one,
/// from left to right.
pub open spec fn single_backticks(s: Seq<char>, from: int) -> Seq<char>
    decreases s.len() - from,
    via single_backticks_decreases
{
    let at = first_run(s, '`', 3, from);
    if at < s.len() {
        s.subrange(from, at) + seq!['`'] + single_backticks(s, at + 3)
    } else {
        s.subrange(from, s.len() as int)
    }
}

#[via_fn]
proof fn single_backticks_decreases(s: Seq<char>, from: int) {
    if from >= 0 {
        lemma_first_run(s, '`', 3, from);
    }
}

/// The body of a code span without the whitespace at its two ends. Of a body
/// that is whitespace only, the last character stays.
pub open spec fn trimmed_code(body: Seq<char>) -> Seq<char> {
    let start = space_run_end(body, 0);
    if start >= body.len() {
        body.subrange(body.len() - 1, body.len() as int)
    } else {
        body.subrange(start, space_run_start(body, start, body.len() as int))
    }
}

/// `s` from index `from` on, with every code span set apart: the whitespace
/// around the span gives way to two line feeds before it and two behind it,
/// and the body loses the whitespace at its ends.
pub open spec fn set_apart(s: Seq<char>, from: int) -> Seq<char>
    decreases s.len() - from,
    via set_apart_decreases
{
    match next_code_span(s, from) {
        Some((open, close)) => s.subrange(from, space_run_start(s, from, open)) + seq![
            '\n',
            '\n',
            '`',
        ] + trimmed_code(s.subrange(open + 1, close)) + seq!['`', '\n', '\n'] + set_apart(
            s,
            space_run_end(s, close + 1),
        ),
        None => s.subrange(from, s.len() as int),
    }
}

#[via_fn]
proof fn set_apart_decreases(s: Seq<char>, from: int) {
    if from >= 0 {
        lemma_next_code_span(s, from);
        match next_code_span(s, from) {
            Some((open, close)) => {
                lemma_space_run_end(s, close + 1);
            },
            None => {},
        }
    }
}

/// The monospace markup in one form: three backticks count as one, and
/// every code span stands apart.
pub open spec fn normalize_monospace(s: Seq<char>) -> Seq<char> {
    set_apart(single_backticks(s, 0), 0)
}

fn single_out_backticks(s: &Vec<char>) -> (out: Vec<char>)
    ensures
        out@ == single_backticks(s@, 0),
{
    let mut out: Vec<char> = Vec::new();
    let mut pos: usize = 0;
    loop
        invariant_except_break
            pos <= s.len(),
            out@ + single_backticks(s@, pos as int) == single_backticks(s@, 0),
        ensures
            out@ == single_backticks(s@, 0),
        decreases s.len() - pos,
    {
        let ghost before = out@;
        let at = find_run(s, '`', 3, pos);
        push_range(&mut out, s, pos, at);
        if at >= s.len() {
            break ;
        }
        out.push('`');
        assert(out@ + single_backticks(s@, at + 3) =~= before + single_backticks(s@, pos as int));
        pos = at + 3;
    }
    out
}

fn push_trimmed_code(out: &mut Vec<char>, body: &Vec<char>)
    requires
        body.len() > 0,
    ensures
        final(out)@ == old(out)@ + trimmed_code(body@),
{
    let start = skip_spaces(body, 0);
    if start >= body.len() {
        push_range(out, body, body.len() - 1, body.len());
    } else {
        let end = skip_spaces_back(body, start, body.len());
        push_range(out, body, start, end);
    }
}

fn set_spans_apart(s: &Vec<char>) -> (out: Vec<char>)
    ensures
        out@ == set_apart(s@, 0),
{
    let mut out: Vec<char> = Vec::new();
    let mut pos: usize = 0;
    loop
        invariant_except_break
            pos <= s.len(),
            out@ + set_apart(s@, pos as int) == set_apart(s@, 0),
        ensures
            out@ == set_apart(s@, 0),
        decreases s.len() - pos,
    {
        let ghost before = out@;
        match find_code_span(s, pos) {
            None => {
                push_range(&mut out, s, pos, s.len());
                break ;
            },
            Some((open, close)) => {
                let lead = skip_spaces_back(s, pos, open);
                push_range(&mut out, s, pos, lead);
                let ghost kept = out@;
                out.push('\n');
                out.push('\n');
                out.push('`');
                assert(out@ =~= kept + seq!['\n', '\n', '`']);
                let body = copy_range(s, open + 1, close);
                push_trimmed_code(&mut out, &body);
                let ghost trimmed = out@;
                out.push('`');
                out.push('\n');
                out.push('\n');
                assert(out@ =~= trimmed + seq!['`', '\n', '\n']);
                let next = skip_spaces(s, close + 1);
                assert(out@ + set_apart(s@, next as int) =~= before + set_apart(s@, pos as int));
                pos = next;
            },
        }
    }
    out
}

pub(crate) fn edit_monospace(s: &Vec<char>) -> (out: Vec<char>)
    ensures
        out@ == normalize_monospace(s@),
{
    let single = single_out_backticks(s);
    set_spans_apart(&single)
}

/// Brings the monospace markup into one form. Three backticks in a row, the
/// obsolete way to write a monospace block, become one. Then every code span
/// is set apart from the text around it: whatever whitespace stood before
/// and behind it, two line feeds stand there now, and the whitespace at the
/// two ends of its body is gone, while the line feeds inside stay.
pub fn format_edit_monospace(text: &str) -> (out: String)
    ensures
        out@ == normalize_monospace(text@),
{
    let chars = to_chars(text);
    from_chars(&edit_monospace(&chars))
}

/// A monospace block in the obsolete form starts at index `at`: three
/// backticks, and three more at the next backtick behind them.
pub open spec fn obsolete_block_at(s: Seq<char>, at: int) -> bool {
    run_at(s, '`', 3, at) && run_at(s, '`', 3, first_run(s, '`', 1, at + 3))
}

/// The text holds a monospace block in the obsolete form.
pub open spec fn has_obsolete_monospace(s: Seq<char>) -> bool {
    exists|at: int| obsolete_block_at(s, at)
}

fn holds_obsolete_monospace(s: &Vec<char>) -> (found: bool)
    ensures
        found == has_obsolete_monospace(s@),
{
    let mut pos: usize = 0;
    loop
        invariant
            pos <= s.len(),
            forall|at: int| at < pos ==> !obsolete_block_at(s@, at),
        decreases s.len() - pos,
    {
        let at = find_run(s, '`', 3, pos);
        proof {
            lemma_first_run(s@, '`', 3, pos as int);
        }
        if at >= s.len() {
            return false;
        }
        let next = find_run(s, '`', 1, at + 3);
        if is_run_at(s, '`', 3, next) {
            assert(obsolete_block_at(s@, at as int));
            return true;
        }
        pos = at + 1;
    }
}

/// What the user is told about a statement in the obsolete form: the word
/// `WARNING` in the style of failures, the advice, and an empty line.
pub open spec fn obsolete_warning(ostyle: OutputStyle) -> Seq<char> {
    painted(ostyle.failure, "WARNING"@) + " "@
        + "Clash contains obsolete ``` formatting, consider fixing it in the website."@ + "\n\n"@
}

/// The advice to give before a statement is formatted: a warning where the
/// statement holds a monospace block in the obsolete form with three
/// backticks, nothing otherwise. Such a statement is formatted all the same.
pub fn format_warning(text: &str, ostyle: &OutputStyle) -> (warning: Option<String>)
    ensures
        has_obsolete_monospace(text@) ==> warning is Some && warning->0@ == obsolete_warning(
            *ostyle,
        ),
        !has_obsolete_monospace(text@) ==> warning is None,
{
    let chars = to_chars(text);
    if holds_obsolete_monospace(&chars) {
        let mut out = ostyle.failure.paint_str("WARNING");
        out.append(" ");
        out.append("Clash contains obsolete ``` formatting, consider fixing it in the website.");
        out.append("\n\n");
        Some(out)
    } else {
        None
    }
}

} // verus!
