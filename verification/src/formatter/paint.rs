//! The fourth step: every tag gives way to its body in the style of its
//! kind.

use crate::markup::{find_tag, lemma_next_tag, next_tag, Tag};
use crate::outputstyle::{painted, OutputStyle, Style};
use crate::scan::{find_run, first_run, lemma_first_run};
use crate::text::{copy_range, from_chars, push_all, push_range, to_chars};
use vstd::prelude::*;

verus! {

/// `n` spaces.
pub open spec fn spaces(n: nat) -> Seq<char> {
    Seq::new(n, |k: int| ' ')
}

/// The length of the longest row of `body` from index `from` on. Rows are
/// separated by line feeds.
pub open spec fn widest_row(body: Seq<char>, from: int) -> int
    decreases body.len() - from,
    via widest_row_decreases
{
    let end = first_run(body, '\n', 1, from);
    if end < body.len() {
        if end - from >= widest_row(body, end + 1) {
            end - from
        } else {
            widest_row(body, end + 1)
        }
    } else {
        body.len() - from
    }
}

#[via_fn]
proof fn widest_row_decreases(body: Seq<char>, from: int) {
    if from >= 0 {
        lemma_first_run(body, '\n', 1, from);
    }
}

proof fn lemma_widest_row_nonnegative(body: Seq<char>, from: int)
    requires
        0 <= from <= body.len(),
    ensures
        widest_row(body, from) >= 0,
    decreases body.len() - from,
{
    lemma_first_run(body, '\n', 1, from);
    let end = first_run(body, '\n', 1, from);
    if end < body.len() {
        lemma_widest_row_nonnegative(body, end + 1);
    }
}

/// One row of a monospace block. A row of more than one character is filled
/// up with spaces to `width` and painted; a shorter one stays as it is.
pub open spec fn mono_row(style: Style, row: Seq<char>, width: int) -> Seq<char> {
    if row.len() > 1 {
        painted(style, row + spaces((width - row.len()) as nat))
    } else {
        row
    }
}

/// The rows of `body` from index `from` on, each shown by `mono_row`, with a
/// line feed between two rows.
pub open spec fn mono_rows(body: Seq<char>, style: Style, width: int, from: int) -> Seq<char>
    decreases body.len() - from,
    via mono_rows_decreases
{
    let end = first_run(body, '\n', 1, from);
    if end < body.len() {
        mono_row(style, body.subrange(from, end), width) + seq!['\n'] + mono_rows(
            body,
            style,
            width,
            end + 1,
        )
    } else {
        mono_row(style, body.subrange(from, body.len() as int), width)
    }
}

#[via_fn]
proof fn mono_rows_decreases(body: Seq<char>, style: Style, width: int, from: int) {
    if from >= 0 {
        lemma_first_run(body, '\n', 1, from);
    }
}

/// A monospace block: the rows of the body, each as wide as the widest.
pub open spec fn mono_block(style: Style, body: Seq<char>) -> Seq<char> {
    mono_rows(body, style, widest_row(body, 0), 0)
}

/// What stands in place of a tag of kind `tag` with the given body.
pub open spec fn painted_body(tag: Tag, style: Style, body: Seq<char>) -> Seq<char> {
    if tag == Tag::Monospace {
        mono_block(style, body)
    } else {
        painted(style, body)
    }
}

/// `s` from index `from` on, with every tag of kind `tag` replaced by its
/// body in `style`.
pub open spec fn painted_tags(s: Seq<char>, tag: Tag, style: Style, from: int) -> Seq<char>
    decreases s.len() - from,
    via painted_tags_decreases
{
    match next_tag(s, tag, from) {
        Some((i, j)) => s.subrange(from, i) + painted_body(
            tag,
            style,
            s.subrange(i + tag.width(), j - tag.width()),
        ) + painted_tags(s, tag, style, j),
        None => s.subrange(from, s.len() as int),
    }
}

#[via_fn]
proof fn painted_tags_decreases(s: Seq<char>, tag: Tag, style: Style, from: int) {
    if from >= 0 {
        lemma_next_tag(s, tag, from);
    }
}

/// The tags replaced kind by kind: variables, constants, bold text,
/// monospace text. Each kind is looked for in what the kinds before it left.
pub open spec fn paint_inner_blocks(s: Seq<char>, ostyle: OutputStyle) -> Seq<char> {
    painted_tags(
        painted_tags(
            painted_tags(
                painted_tags(s, Tag::Variable, ostyle.variable, 0),
                Tag::Constant,
                ostyle.constant,
                0,
            ),
            Tag::Bold,
            ostyle.bold,
            0,
        ),
        Tag::Monospace,
        ostyle.monospace,
        0,
    )
}

fn measure_rows(body: &Vec<char>) -> (width: usize)
    ensures
        width == widest_row(body@, 0),
{
    let mut width: usize = 0;
    let mut pos: usize = 0;
    proof {
        lemma_widest_row_nonnegative(body@, 0);
    }
    loop
        invariant_except_break
            pos <= body.len(),
            widest_row(body@, 0) == if width >= widest_row(body@, pos as int) {
                width as int
            } else {
                widest_row(body@, pos as int)
            },
        ensures
            width == widest_row(body@, 0),
        decreases body.len() - pos,
    {
        let end = find_run(body, '\n', 1, pos);
        if end - pos > width {
            width = end - pos;
        }
        if end >= body.len() {
            break ;
        }
        pos = end + 1;
    }
    width
}

fn paint_row(body: &Vec<char>, from: usize, to: usize, style: &Style, width: usize) -> (out: Vec<
    char,
>)
    requires
        from <= to <= body.len(),
        to - from <= width,
    ensures
        out@ == mono_row(*style, body@.subrange(from as int, to as int), width as int),
{
    let mut row = copy_range(body, from, to);
    if to - from > 1 {
        let mut n: usize = to - from;
        assert(row@ =~= body@.subrange(from as int, to as int) + spaces(0));
        while n < width
            invariant
                from <= to <= body.len(),
                to - from <= n <= width,
                row@ == body@.subrange(from as int, to as int) + spaces((n - (to - from)) as nat),
            decreases width - n,
        {
            row.push(' ');
            n += 1;
            assert(row@ =~= body@.subrange(from as int, to as int) + spaces(
                (n - (to - from)) as nat,
            ));
        }
        style.paint(&row)
    } else {
        row
    }
}

fn paint_block(body: &Vec<char>, style: &Style) -> (out: Vec<char>)
    ensures
        out@ == mono_block(*style, body@),
{
    let width = measure_rows(body);
    let mut out: Vec<char> = Vec::new();
    let mut pos: usize = 0;
    loop
        invariant_except_break
            pos <= body.len(),
            widest_row(body@, pos as int) <= width,
            out@ + mono_rows(body@, *style, width as int, pos as int) == mono_rows(
                body@,
                *style,
                width as int,
                0,
            ),
        ensures
            out@ == mono_rows(body@, *style, width as int, 0),
        decreases body.len() - pos,
    {
        let ghost before = out@;
        let end = find_run(body, '\n', 1, pos);
        let row = paint_row(body, pos, end, style, width);
        push_all(&mut out, &row);
        if end >= body.len() {
            break ;
        }
        out.push('\n');
        assert(out@ + mono_rows(body@, *style, width as int, end + 1) =~= before + mono_rows(
            body@,
            *style,
            width as int,
            pos as int,
        ));
        pos = end + 1;
    }
    out
}

fn paint_tags(s: &Vec<char>, tag: Tag, style: &Style) -> (out: Vec<char>)
    ensures
        out@ == painted_tags(s@, tag, *style, 0),
{
    let mut out: Vec<char> = Vec::new();
    let mut pos: usize = 0;
    let w = tag.marker_len();
    loop
        invariant_except_break
            pos <= s.len(),
            w == tag.width(),
            out@ + painted_tags(s@, tag, *style, pos as int) == painted_tags(s@, tag, *style, 0),
        ensures
            out@ == painted_tags(s@, tag, *style, 0),
        decreases s.len() - pos,
    {
        let ghost before = out@;
        match find_tag(s, tag, pos) {
            None => {
                push_range(&mut out, s, pos, s.len());
                break ;
            },
            Some((i, j)) => {
                push_range(&mut out, s, pos, i);
                let body = copy_range(s, i + w, j - w);
                let shown = match tag {
                    Tag::Monospace => paint_block(&body, style),
                    _ => style.paint(&body),
                };
                push_all(&mut out, &shown);
                assert(out@ + painted_tags(s@, tag, *style, j as int) =~= before + painted_tags(
                    s@,
                    tag,
                    *style,
                    pos as int,
                ));
                pos = j;
            },
        }
    }
    out
}

pub(crate) fn paint_blocks(s: &Vec<char>, ostyle: &OutputStyle) -> (out: Vec<char>)
    ensures
        out@ == paint_inner_blocks(s@, *ostyle),
{
    let variables = paint_tags(s, Tag::Variable, &ostyle.variable);
    let constants = paint_tags(&variables, Tag::Constant, &ostyle.constant);
    let bold = paint_tags(&constants, Tag::Bold, &ostyle.bold);
    paint_tags(&bold, Tag::Monospace, &ostyle.monospace)
}

/// Takes the markers of every tag away and shows its body in the style of
/// its kind: `[[N]]` becomes `N` in the style of variables. The kinds are
/// replaced one after the other: variables, constants, bold text, monospace
/// text. Monospace text is shown as a block: its rows are filled up with
/// spaces to the width of the widest and painted one by one, but a row of
/// one character or none stays as it is.
pub fn format_paint_inner_blocks(text: &str, ostyle: &OutputStyle) -> (out: String)
    ensures
        out@ == paint_inner_blocks(text@, *ostyle),
{
    let chars = to_chars(text);
    from_chars(&paint_blocks(&chars, ostyle))
}

} // verus!
