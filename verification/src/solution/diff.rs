//! The difference between the output that a test case asks for and the
//! output that a solution gave: line against line by their place, and
//! within a line span by span.

use super::lines::{lemma_lines_join, lines, split_lines_chars};
use super::spans::{
    equals_nonempty, lemma_line_spans, line_diff, line_spans, side_from, DiffSpan, SpanView,
};
use crate::formatter::whitespace::{show_whitespace_chars, whitespace_shown};
use crate::outputstyle::{painted, OutputStyle, Style};
use crate::text::{copy_range, decimal, from_chars, push_all, push_decimal, to_chars, views};
use vstd::prelude::*;
use vstd::seq_lib::lemma_flatten_concat;

verus! {

/// One write to the output channel.
#[derive(Debug, Clone, PartialEq, Eq)]
pub enum DiffWrite {
    /// The line that says that the solution wrote nothing.
    NoOutput,
    /// Text of the actual output that is as expected.
    Matched(String),
    /// Text of the actual output that is not as expected, or the first
    /// character behind a place where expected text is missing.
    Mismatch(String),
    /// The line feed that ends an output without one.
    LineEnd,
    /// The line that says how many expected lines the output lacks.
    MissingLines(usize),
}

/// A write as a mathematical value.
pub enum WriteView {
    NoOutput,
    Matched(Seq<char>),
    Mismatch(Seq<char>),
    LineEnd,
    MissingLines(nat),
}

impl View for DiffWrite {
    type V = WriteView;

    open spec fn view(&self) -> WriteView {
        match *self {
            DiffWrite::NoOutput => WriteView::NoOutput,
            DiffWrite::Matched(text) => WriteView::Matched(text@),
            DiffWrite::Mismatch(text) => WriteView::Mismatch(text@),
            DiffWrite::LineEnd => WriteView::LineEnd,
            DiffWrite::MissingLines(count) => WriteView::MissingLines(count as nat),
        }
    }
}

/// What is written for the spans from index `from` on. Deleted text is not
/// written. Inserted text is written as a mismatch. Equal text is written as
/// matched, but where deleted text came just before it, its first character
/// is written as a mismatch, to mark the place. `after_deletion` says
/// whether the last span before `from` that was deleted or equal was a
/// deleted one.
pub open spec fn span_writes(spans: Seq<SpanView>, from: int, after_deletion: bool) -> Seq<
    WriteView,
>
    decreases spans.len() - from,
{
    if from < 0 || from >= spans.len() {
        Seq::empty()
    } else {
        match spans[from] {
            SpanView::Deleted(_) => span_writes(spans, from + 1, true),
            SpanView::Inserted(text) => seq![WriteView::Mismatch(text)] + span_writes(
                spans,
                from + 1,
                after_deletion,
            ),
            SpanView::Equal(text) => if after_deletion {
                seq![WriteView::Mismatch(text.take(1))] + (if text.len() > 1 {
                    seq![WriteView::Matched(text.skip(1))]
                } else {
                    Seq::empty()
                }) + span_writes(spans, from + 1, false)
            } else {
                seq![WriteView::Matched(text)] + span_writes(spans, from + 1, false)
            },
        }
    }
}

/// What is written for an actual line that stands where an expected one
/// does.
pub open spec fn line_writes(expected: Seq<char>, actual: Seq<char>) -> Seq<WriteView> {
    span_writes(line_spans(expected, actual), 0, false)
}

/// What is written for the actual lines from index `from` on, each against
/// the expected line at the same index. An actual line behind the last
/// expected one is a mismatch as a whole.
pub open spec fn paired_writes(expected: Seq<Seq<char>>, actual: Seq<Seq<char>>, from: int) -> Seq<
    WriteView,
>
    decreases actual.len() - from,
{
    if from < 0 || from >= actual.len() {
        Seq::empty()
    } else if from < expected.len() {
        line_writes(expected[from], actual[from]) + paired_writes(expected, actual, from + 1)
    } else {
        seq![WriteView::Mismatch(actual[from])] + paired_writes(expected, actual, from + 1)
    }
}

/// How many lines the expected output has more than the actual one.
pub open spec fn missing_lines(expected: Seq<char>, actual: Seq<char>) -> nat {
    if lines(expected).len() > lines(actual).len() {
        (lines(expected).len() - lines(actual).len()) as nat
    } else {
        0
    }
}

/// The writes that show how `actual` differs from `expected`. For an empty
/// output that is the line that says so. Otherwise the lines are compared
/// by their place. A line feed follows where the output does not end in one,
/// and last, where lines are missing, the line that counts them.
pub open spec fn diff_writes(expected: Seq<char>, actual: Seq<char>) -> Seq<WriteView> {
    if actual.len() == 0 {
        seq![WriteView::NoOutput]
    } else {
        paired_writes(lines(expected), lines(actual), 0) + (if actual.last() != '\n' {
            seq![WriteView::LineEnd]
        } else {
            Seq::empty()
        }) + (if missing_lines(expected, actual) > 0 {
            seq![WriteView::MissingLines(missing_lines(expected, actual))]
        } else {
            Seq::empty()
        })
    }
}

/// Turns the spans of a line into writes, from left to right. Deleted text
/// is not written, inserted text is written as a mismatch, and equal text as
/// matched; the first character of equal text that follows deleted text is
/// written as a mismatch of its own, to mark the place where text is
/// missing. No span of equal text may be empty.
pub fn walk_spans(spans: &Vec<DiffSpan>) -> (writes: Vec<DiffWrite>)
    requires
        equals_nonempty(views(spans@)),
    ensures
        views(writes@) == span_writes(views(spans@), 0, false),
{
    let mut writes: Vec<DiffWrite> = Vec::new();
    let mut after_deletion = false;
    let mut i: usize = 0;
    assert(views(writes@) =~= Seq::<WriteView>::empty());
    while i < spans.len()
        invariant
            i <= spans.len(),
            equals_nonempty(views(spans@)),
            views(writes@) + span_writes(views(spans@), i as int, after_deletion) == span_writes(
                views(spans@),
                0,
                false,
            ),
        decreases spans.len() - i,
    {
        let ghost before = views(writes@);
        let ghost was_after = after_deletion;
        assert(views(spans@)[i as int] == spans@[i as int]@);
        match &spans[i] {
            DiffSpan::Deleted(_) => {
                after_deletion = true;
            },
            DiffSpan::Inserted(text) => {
                writes.push(DiffWrite::Mismatch(text.clone()));
                assert(views(writes@) =~= before.push(WriteView::Mismatch(text@)));
            },
            DiffSpan::Equal(text) => {
                if after_deletion {
                    let chars = to_chars(text.as_str());
                    let first = copy_range(&chars, 0, 1);
                    assert(first@ =~= text@.take(1));
                    writes.push(DiffWrite::Mismatch(from_chars(&first)));
                    assert(views(writes@) =~= before.push(WriteView::Mismatch(text@.take(1))));
                    if chars.len() > 1 {
                        let ghost marked = views(writes@);
                        let rest = copy_range(&chars, 1, chars.len());
                        assert(rest@ =~= text@.skip(1));
                        writes.push(DiffWrite::Matched(from_chars(&rest)));
                        assert(views(writes@) =~= marked.push(WriteView::Matched(text@.skip(1))));
                    }
                } else {
                    writes.push(DiffWrite::Matched(text.clone()));
                    assert(views(writes@) =~= before.push(WriteView::Matched(text@)));
                }
                after_deletion = false;
            },
        }
        assert(views(writes@) + span_writes(views(spans@), i + 1, after_deletion) =~= before
            + span_writes(views(spans@), i as int, was_after));
        i += 1;
    }
    writes
}

fn push_writes(out: &mut Vec<DiffWrite>, writes: Vec<DiffWrite>)
    ensures
        views(final(out)@) == views(old(out)@) + views(writes@),
{
    let ghost all = views(writes@);
    let mut writes = writes;
    out.append(&mut writes);
    assert(views(out@) =~= views(old(out)@) + all);
}

/// Says what to write to show how `actual` differs from `expected`, in the
/// order of writing. An empty output gives the one line that says so. Else
/// the outputs are compared line by line, by place alone: a line of the
/// output is held against the expected line at the same place and written
/// span by span; a line of the output behind the last expected one is a
/// mismatch as a whole; an expected line behind the last line of the output
/// is counted and nothing is written for it. Where the output does not end
/// in a line feed, one follows. Last comes the count of the missing lines,
/// where there are any.
pub fn diff_plan(expected: &str, actual: &str) -> (writes: Vec<DiffWrite>)
    ensures
        views(writes@) == diff_writes(expected@, actual@),
{
    let mut writes: Vec<DiffWrite> = Vec::new();
    let a = to_chars(actual);
    if a.len() == 0 {
        writes.push(DiffWrite::NoOutput);
        assert(views(writes@) =~= seq![WriteView::NoOutput]);
        return writes;
    }
    let e = to_chars(expected);
    let expected_lines = split_lines_chars(&e);
    let actual_lines = split_lines_chars(&a);
    let mut i: usize = 0;
    assert(views(writes@) =~= Seq::<WriteView>::empty());
    while i < actual_lines.len()
        invariant
            i <= actual_lines.len(),
            views(expected_lines@) == lines(expected@),
            views(actual_lines@) == lines(actual@),
            views(writes@) + paired_writes(lines(expected@), lines(actual@), i as int)
                == paired_writes(lines(expected@), lines(actual@), 0),
        decreases actual_lines.len() - i,
    {
        let ghost before = views(writes@);
        assert(views(actual_lines@)[i as int] == actual_lines@[i as int]@);
        let line = from_chars(&actual_lines[i]);
        if i < expected_lines.len() {
            assert(views(expected_lines@)[i as int] == expected_lines@[i as int]@);
            let expected_line = from_chars(&expected_lines[i]);
            let spans = line_diff(expected_line.as_str(), line.as_str());
            push_writes(&mut writes, walk_spans(&spans));
        } else {
            writes.push(DiffWrite::Mismatch(line));
            assert(views(writes@) =~= before.push(WriteView::Mismatch(actual_lines@[i as int]@)));
        }
        assert(views(writes@) + paired_writes(lines(expected@), lines(actual@), i + 1) =~= before
            + paired_writes(lines(expected@), lines(actual@), i as int));
        i += 1;
    }
    let ghost paired = views(writes@);
    assert(paired =~= paired_writes(lines(expected@), lines(actual@), 0));
    if a[a.len() - 1] != '\n' {
        writes.push(DiffWrite::LineEnd);
        assert(views(writes@) =~= paired.push(WriteView::LineEnd));
    }
    let ghost ended = views(writes@);
    if expected_lines.len() > actual_lines.len() {
        let missing = expected_lines.len() - actual_lines.len();
        writes.push(DiffWrite::MissingLines(missing));
        assert(views(writes@) =~= ended.push(WriteView::MissingLines(missing as nat)));
    }
    assert(views(writes@) =~= diff_writes(expected@, actual@));
    writes
}

/// The style of the lines that say something about the output as a whole.
pub open spec fn dim() -> Style {
    Style { dimmed: true, ..Style::plain() }
}

/// The text of the line that counts the missing lines.
pub open spec fn missing_lines_note(count: nat) -> Seq<char> {
    "(expected "@ + decimal(count) + " more lines)"@
}

/// The text that a write puts on the terminal. Text of the output is shown
/// with its whitespace made visible: matched text in the style of success,
/// a mismatch in the style of errors. The two lines about the output as a
/// whole are dimmed.
pub open spec fn write_text(write: WriteView, ostyle: OutputStyle) -> Seq<char> {
    match write {
        WriteView::NoOutput => painted(dim(), "(no output)"@) + seq!['\n'],
        WriteView::Matched(text) => whitespace_shown(text, ostyle.success, ostyle.success, 0),
        WriteView::Mismatch(text) => whitespace_shown(text, ostyle.error, ostyle.error, 0),
        WriteView::LineEnd => seq!['\n'],
        WriteView::MissingLines(count) => painted(dim(), missing_lines_note(count)) + seq!['\n'],
    }
}

/// The texts of a sequence of writes.
pub open spec fn write_texts(writes: Seq<WriteView>, ostyle: OutputStyle) -> Seq<Seq<char>> {
    Seq::new(writes.len(), |i: int| write_text(writes[i], ostyle))
}

/// Renders one write as the text to put on the terminal.
pub fn render_write(write: &DiffWrite, ostyle: &OutputStyle) -> (out: String)
    ensures
        out@ == write_text(write@, *ostyle),
{
    let dim = Style::new().dimmed();
    match write {
        DiffWrite::NoOutput => {
            let mut out = dim.paint(&to_chars("(no output)"));
            out.push('\n');
            from_chars(&out)
        },
        DiffWrite::Matched(text) => from_chars(
            &show_whitespace_chars(&to_chars(text.as_str()), &ostyle.success, &ostyle.success),
        ),
        DiffWrite::Mismatch(text) => from_chars(
            &show_whitespace_chars(&to_chars(text.as_str()), &ostyle.error, &ostyle.error),
        ),
        DiffWrite::LineEnd => {
            let mut out: Vec<char> = Vec::new();
            out.push('\n');
            assert(out@ =~= seq!['\n']);
            from_chars(&out)
        },
        DiffWrite::MissingLines(count) => {
            let mut note = to_chars("(expected ");
            push_decimal(&mut note, *count);
            push_all(&mut note, &to_chars(" more lines)"));
            let mut out = dim.paint(&note);
            out.push('\n');
            from_chars(&out)
        },
    }
}

/// Shows how `actual` differs from `expected`: the texts to put on the
/// terminal, one for each write of `diff_plan`, in the order of writing.
pub fn render_diff(expected: &str, actual: &str, ostyle: &OutputStyle) -> (out: Vec<String>)
    ensures
        views(out@) == write_texts(diff_writes(expected@, actual@), *ostyle),
{
    let writes = diff_plan(expected, actual);
    let mut out: Vec<String> = Vec::new();
    let mut i: usize = 0;
    while i < writes.len()
        invariant
            i <= writes.len(),
            out.len() == i,
            forall|k: int| 0 <= k < i ==> out@[k]@ == write_text(writes@[k]@, *ostyle),
        decreases writes.len() - i,
    {
        out.push(render_write(&writes[i], ostyle));
        i += 1;
    }
    assert(views(out@) =~= write_texts(views(writes@), *ostyle));
    out
}

/// A write of text of the output, matched or not.
pub open spec fn is_text_write(write: WriteView) -> bool {
    write is Matched || write is Mismatch
}

/// Every write of `writes` is text of the output.
pub open spec fn all_text(writes: Seq<WriteView>) -> bool {
    forall|i: int| 0 <= i < writes.len() ==> is_text_write(#[trigger] writes[i])
}

proof fn lemma_all_text_add(head: Seq<WriteView>, tail: Seq<WriteView>)
    requires
        all_text(head),
        all_text(tail),
    ensures
        all_text(head + tail),
{
    assert forall|i: int| 0 <= i < (head + tail).len() implies is_text_write(
        #[trigger] (head + tail)[i],
    ) by {
        if i >= head.len() {
            assert((head + tail)[i] == tail[i - head.len()]);
        }
    }
}

proof fn lemma_span_writes_are_text(spans: Seq<SpanView>, from: int, after_deletion: bool)
    ensures
        all_text(span_writes(spans, from, after_deletion)),
    decreases spans.len() - from,
{
    if 0 <= from < spans.len() {
        lemma_span_writes_are_text(spans, from + 1, true);
        lemma_span_writes_are_text(spans, from + 1, false);
        match spans[from] {
            SpanView::Deleted(_) => {},
            SpanView::Inserted(text) => {
                lemma_all_text_add(
                    seq![WriteView::Mismatch(text)],
                    span_writes(spans, from + 1, after_deletion),
                );
            },
            SpanView::Equal(text) => {
                let rest = span_writes(spans, from + 1, false);
                if after_deletion {
                    let mark = seq![WriteView::Mismatch(text.take(1))];
                    let tail = if text.len() > 1 {
                        seq![WriteView::Matched(text.skip(1))]
                    } else {
                        Seq::empty()
                    };
                    lemma_all_text_add(mark, tail);
                    lemma_all_text_add(mark + tail, rest);
                } else {
                    lemma_all_text_add(seq![WriteView::Matched(text)], rest);
                }
            },
        }
    }
}

/// Comparing lines writes text of the output and nothing else.
pub proof fn lemma_paired_writes_are_text(
    expected: Seq<Seq<char>>,
    actual: Seq<Seq<char>>,
    from: int,
)
    ensures
        all_text(paired_writes(expected, actual, from)),
    decreases actual.len() - from,
{
    if 0 <= from < actual.len() {
        lemma_paired_writes_are_text(expected, actual, from + 1);
        let rest = paired_writes(expected, actual, from + 1);
        if from < expected.len() {
            lemma_span_writes_are_text(line_spans(expected[from], actual[from]), 0, false);
            lemma_all_text_add(line_writes(expected[from], actual[from]), rest);
        } else {
            lemma_all_text_add(seq![WriteView::Mismatch(actual[from])], rest);
        }
    }
}

proof fn lemma_same_lines_match(all: Seq<Seq<char>>, from: int)
    ensures
        forall|i: int|
            0 <= i < paired_writes(all, all, from).len() ==> #[trigger] paired_writes(
                all,
                all,
                from,
            )[i] is Matched,
    decreases all.len() - from,
{
    if 0 <= from < all.len() {
        lemma_same_lines_match(all, from + 1);
        let line = all[from];
        let spans = line_spans(line, line);
        if line.len() > 0 {
            assert(span_writes(spans, 1, false) =~= Seq::empty());
            assert(span_writes(spans, 0, false) =~= seq![WriteView::Matched(line)]);
        } else {
            assert(span_writes(spans, 0, false) =~= Seq::empty());
        }
    }
}

/// The text of the output that a write holds.
pub open spec fn written_text(write: WriteView) -> Seq<char> {
    match write {
        WriteView::Matched(text) => text,
        WriteView::Mismatch(text) => text,
        _ => Seq::empty(),
    }
}

/// The text of the output that a sequence of writes holds, in order.
pub open spec fn written(writes: Seq<WriteView>) -> Seq<char> {
    Seq::new(writes.len(), |i: int| written_text(writes[i])).flatten()
}

proof fn lemma_written_add(head: Seq<WriteView>, tail: Seq<WriteView>)
    ensures
        written(head + tail) == written(head) + written(tail),
{
    let texts = |writes: Seq<WriteView>| Seq::new(writes.len(), |i: int| written_text(writes[i]));
    assert(texts(head + tail) =~= texts(head) + texts(tail));
    lemma_flatten_concat(texts(head), texts(tail));
}

proof fn lemma_written_one(write: WriteView)
    ensures
        written(seq![write]) == written_text(write),
{
    let texts = Seq::new(1, |i: int| written_text(seq![write][i]));
    assert(texts =~= seq![written_text(write)]);
    texts.lemma_flatten_one_element();
}

proof fn lemma_written_none()
    ensures
        written(Seq::empty()) == Seq::<char>::empty(),
{
    assert(Seq::new(0, |i: int| written_text(Seq::<WriteView>::empty()[i])) =~= Seq::<
        Seq<char>,
    >::empty());
}

proof fn lemma_span_writes_written(spans: Seq<SpanView>, from: int, after_deletion: bool)
    requires
        equals_nonempty(spans),
    ensures
        written(span_writes(spans, from, after_deletion)) == side_from(spans, true, from),
    decreases spans.len() - from,
{
    if 0 <= from < spans.len() {
        match spans[from] {
            SpanView::Deleted(_) => {
                lemma_span_writes_written(spans, from + 1, true);
                assert(Seq::<char>::empty() + side_from(spans, true, from + 1) =~= side_from(
                    spans,
                    true,
                    from + 1,
                ));
            },
            SpanView::Inserted(text) => {
                lemma_span_writes_written(spans, from + 1, after_deletion);
                lemma_written_one(WriteView::Mismatch(text));
                lemma_written_add(
                    seq![WriteView::Mismatch(text)],
                    span_writes(spans, from + 1, after_deletion),
                );
            },
            SpanView::Equal(text) => {
                let rest = span_writes(spans, from + 1, false);
                lemma_span_writes_written(spans, from + 1, false);
                if after_deletion {
                    let mark = seq![WriteView::Mismatch(text.take(1))];
                    let tail = if text.len() > 1 {
                        seq![WriteView::Matched(text.skip(1))]
                    } else {
                        Seq::empty()
                    };
                    lemma_written_one(WriteView::Mismatch(text.take(1)));
                    if text.len() > 1 {
                        lemma_written_one(WriteView::Matched(text.skip(1)));
                    } else {
                        lemma_written_none();
                    }
                    lemma_written_add(mark, tail);
                    lemma_written_add(mark + tail, rest);
                    assert(written(mark + tail) =~= text);
                } else {
                    lemma_written_one(WriteView::Matched(text));
                    lemma_written_add(seq![WriteView::Matched(text)], rest);
                }
            },
        }
    } else {
        lemma_written_none();
    }
}

proof fn lemma_paired_writes_written(expected: Seq<Seq<char>>, actual: Seq<Seq<char>>, from: int)
    requires
        0 <= from <= actual.len(),
    ensures
        written(paired_writes(expected, actual, from)) == actual.subrange(
            from,
            actual.len() as int,
        ).flatten(),
    decreases actual.len() - from,
{
    let left = actual.subrange(from, actual.len() as int);
    if from < actual.len() {
        let rest = paired_writes(expected, actual, from + 1);
        lemma_paired_writes_written(expected, actual, from + 1);
        assert(left.first() == actual[from]);
        assert(left.drop_first() =~= actual.subrange(from + 1, actual.len() as int));
        if from < expected.len() {
            lemma_line_spans(expected[from], actual[from]);
            lemma_span_writes_written(line_spans(expected[from], actual[from]), 0, false);
            lemma_written_add(line_writes(expected[from], actual[from]), rest);
        } else {
            lemma_written_one(WriteView::Mismatch(actual[from]));
            lemma_written_add(seq![WriteView::Mismatch(actual[from])], rest);
        }
    } else {
        lemma_written_none();
        assert(left =~= Seq::<Seq<char>>::empty());
    }
}

/// What a difference writes of the output is the output, character for
/// character: matched text and mismatches, in the order of writing, are the
/// actual output, whatever was expected.
pub proof fn lemma_written_is_output(expected: Seq<char>, actual: Seq<char>)
    ensures
        written(diff_writes(expected, actual)) == actual,
{
    if actual.len() == 0 {
        lemma_written_one(WriteView::NoOutput);
        assert(actual =~= Seq::empty());
    } else {
        let paired = paired_writes(lines(expected), lines(actual), 0);
        let end = if actual.last() != '\n' {
            seq![WriteView::LineEnd]
        } else {
            Seq::empty()
        };
        let count = if missing_lines(expected, actual) > 0 {
            seq![WriteView::MissingLines(missing_lines(expected, actual))]
        } else {
            Seq::empty()
        };
        lemma_paired_writes_written(lines(expected), lines(actual), 0);
        assert(lines(actual).subrange(0, lines(actual).len() as int) =~= lines(actual));
        lemma_lines_join(actual);
        lemma_written_one(WriteView::LineEnd);
        lemma_written_one(WriteView::MissingLines(missing_lines(expected, actual)));
        lemma_written_none();
        lemma_written_add(paired, end);
        lemma_written_add(paired + end, count);
        assert(written(paired) + written(end) + written(count) =~= actual);
    }
}

/// An output that is what was expected shows no mismatch, and no line is
/// missing.
pub proof fn lemma_same_outputs(text: Seq<char>)
    ensures
        missing_lines(text, text) == 0,
        forall|i: int|
            0 <= i < diff_writes(text, text).len() ==> !(#[trigger] diff_writes(text, text)[i]
                is Mismatch) && !(diff_writes(text, text)[i] is MissingLines),
{
    lemma_same_lines_match(lines(text), 0);
}

/// An output of `k` lines fewer than expected is `k` lines short. Where
/// lines are missing, the last write says how many, and no other write
/// counts lines. This is said of an output that is not empty: for an empty
/// one the only write is the line about it.
pub proof fn lemma_missing_lines(expected: Seq<char>, actual: Seq<char>, k: nat)
    requires
        actual.len() > 0,
        lines(expected).len() == lines(actual).len() + k,
    ensures
        missing_lines(expected, actual) == k,
        k > 0 ==> diff_writes(expected, actual).last() == WriteView::MissingLines(k),
        forall|i: int|
            0 <= i < diff_writes(expected, actual).len() && #[trigger] diff_writes(
                expected,
                actual,
            )[i] is MissingLines ==> k > 0 && i == diff_writes(expected, actual).len() - 1,
{
    lemma_paired_writes_are_text(lines(expected), lines(actual), 0);
}

/// For an empty output the one and only write is the line that says so,
/// whatever was expected.
pub proof fn lemma_no_output(expected: Seq<char>, ostyle: OutputStyle)
    ensures
        diff_writes(expected, Seq::empty()) == seq![WriteView::NoOutput],
        write_texts(diff_writes(expected, Seq::empty()), ostyle) == seq![
            painted(dim(), "(no output)"@) + seq!['\n'],
        ],
{
    assert(write_texts(seq![WriteView::NoOutput], ostyle) =~= seq![
        painted(dim(), "(no output)"@) + seq!['\n'],
    ]);
}

} // verus!
