//! The spans of a line: what an actual line and the expected line have in
//! common and where they differ.

use crate::text::{from_chars, push_all, to_chars, views};
use dissimilar::Chunk;
use vstd::prelude::*;

verus! {

/// A stretch of a line, classified by comparing the expected line with the
/// actual one.
#[derive(Debug, Clone, PartialEq, Eq)]
pub enum DiffSpan {
    /// Text that both lines hold.
    Equal(String),
    /// Text that only the actual line holds.
    Inserted(String),
    /// Text that only the expected line holds.
    Deleted(String),
}

/// A span as a mathematical value.
pub enum SpanView {
    Equal(Seq<char>),
    Inserted(Seq<char>),
    Deleted(Seq<char>),
}

impl View for DiffSpan {
    type V = SpanView;

    open spec fn view(&self) -> SpanView {
        match *self {
            DiffSpan::Equal(text) => SpanView::Equal(text@),
            DiffSpan::Inserted(text) => SpanView::Inserted(text@),
            DiffSpan::Deleted(text) => SpanView::Deleted(text@),
        }
    }
}

/// What a comparison of two lines by `dissimilar::diff` gives.
pub uninterp spec fn word_diff(expected: Seq<char>, actual: Seq<char>) -> Seq<SpanView>;

/// Compares two lines through `dissimilar::diff` and hands its chunks on
/// in their order, each as the span of its kind. Taken on trust: the result
/// depends on the two lines alone, so that it has a name, `word_diff`.
/// Nothing is claimed of what the chunks hold.
#[verifier::external_body]
fn diff_chunks(expected: &str, actual: &str) -> (spans: Vec<DiffSpan>)
    ensures
        views(spans@) == word_diff(expected@, actual@),
{
    dissimilar::diff(expected, actual)
        .into_iter()
        .map(|chunk| match chunk {
            Chunk::Equal(text) => DiffSpan::Equal(text.to_string()),
            Chunk::Delete(text) => DiffSpan::Deleted(text.to_string()),
            Chunk::Insert(text) => DiffSpan::Inserted(text.to_string()),
        })
        .collect()
}

/// No span of equal text is empty.
pub open spec fn equals_nonempty(spans: Seq<SpanView>) -> bool {
    forall|i: int|
        0 <= i < spans.len() ==> match #[trigger] spans[i] {
            SpanView::Equal(text) => text.len() > 0,
            _ => true,
        }
}

/// `spans` without its empty spans of equal text.
pub open spec fn without_empty_equals(spans: Seq<SpanView>) -> Seq<SpanView>
    decreases spans.len(),
{
    if spans.len() == 0 {
        spans
    } else if spans.last() == SpanView::Equal(Seq::empty()) {
        without_empty_equals(spans.drop_last())
    } else {
        without_empty_equals(spans.drop_last()).push(spans.last())
    }
}

/// The text of a span that belongs to the actual line, or to the expected
/// one: equal text belongs to both, inserted text to the actual line, and
/// deleted text to the expected line.
pub open spec fn side_text(span: SpanView, actual: bool) -> Seq<char> {
    match span {
        SpanView::Equal(text) => text,
        SpanView::Inserted(text) => if actual {
            text
        } else {
            Seq::empty()
        },
        SpanView::Deleted(text) => if actual {
            Seq::empty()
        } else {
            text
        },
    }
}

/// What the spans from index `from` on hold of the actual line, or of the
/// expected one, in order.
pub open spec fn side_from(spans: Seq<SpanView>, actual: bool, from: int) -> Seq<char>
    decreases spans.len() - from,
{
    if from < 0 || from >= spans.len() {
        Seq::empty()
    } else {
        side_text(spans[from], actual) + side_from(spans, actual, from + 1)
    }
}

/// The spans are a difference between the two lines: what they hold of each
/// line is that line.
pub open spec fn spans_fit(spans: Seq<SpanView>, expected: Seq<char>, actual: Seq<char>) -> bool {
    side_from(spans, false, 0) == expected && side_from(spans, true, 0) == actual
}

/// The spans of an actual line against the expected one. Two lines that are
/// the same are one span of equal text. Other lines are compared word by
/// word, and an empty span of equal text is left out. Should the spans that
/// the comparison gives not make up the two lines, the lines count as
/// different from end to end.
pub open spec fn line_spans(expected: Seq<char>, actual: Seq<char>) -> Seq<SpanView> {
    if expected == actual {
        if actual.len() == 0 {
            Seq::empty()
        } else {
            seq![SpanView::Equal(actual)]
        }
    } else {
        let found = without_empty_equals(word_diff(expected, actual));
        if spans_fit(found, expected, actual) {
            found
        } else {
            seq![SpanView::Deleted(expected), SpanView::Inserted(actual)]
        }
    }
}

/// What is left by `without_empty_equals` holds no empty span of equal
/// text.
pub proof fn lemma_without_empty_equals(spans: Seq<SpanView>)
    ensures
        equals_nonempty(without_empty_equals(spans)),
    decreases spans.len(),
{
    if spans.len() > 0 {
        lemma_without_empty_equals(spans.drop_last());
        match spans.last() {
            SpanView::Equal(text) => {
                if text.len() == 0 {
                    assert(text =~= Seq::empty());
                }
            },
            _ => {},
        }
    }
}

/// The spans of two lines are a difference between the lines, with no empty
/// span of equal text.
pub proof fn lemma_line_spans(expected: Seq<char>, actual: Seq<char>)
    ensures
        equals_nonempty(line_spans(expected, actual)),
        spans_fit(line_spans(expected, actual), expected, actual),
{
    let spans = line_spans(expected, actual);
    let found = without_empty_equals(word_diff(expected, actual));
    lemma_without_empty_equals(word_diff(expected, actual));
    if expected == actual || !spans_fit(found, expected, actual) {
        reveal_with_fuel(side_from, 3);
        assert(side_from(spans, false, 0) =~= expected);
        assert(side_from(spans, true, 0) =~= actual);
    }
}

fn same_chars(a: &Vec<char>, b: &Vec<char>) -> (same: bool)
    ensures
        same == (a@ == b@),
{
    if a.len() != b.len() {
        return false;
    }
    let mut i: usize = 0;
    while i < a.len()
        invariant
            i <= a.len(),
            a.len() == b.len(),
            forall|k: int| 0 <= k < i ==> a@[k] == b@[k],
        decreases a.len() - i,
    {
        if a[i] != b[i] {
            return false;
        }
        i += 1;
    }
    assert(a@ =~= b@);
    true
}

fn copy_span(span: &DiffSpan) -> (copy: DiffSpan)
    ensures
        copy@ == span@,
{
    match span {
        DiffSpan::Equal(text) => DiffSpan::Equal(text.clone()),
        DiffSpan::Inserted(text) => DiffSpan::Inserted(text.clone()),
        DiffSpan::Deleted(text) => DiffSpan::Deleted(text.clone()),
    }
}

fn is_empty_equal(span: &DiffSpan) -> (yes: bool)
    ensures
        yes == (span@ == SpanView::Equal(Seq::empty())),
{
    match span {
        DiffSpan::Equal(text) => {
            let empty = text.as_str().is_empty();
            assert(empty ==> text@ =~= Seq::empty());
            empty
        },
        _ => false,
    }
}

fn drop_empty_equals(spans: &Vec<DiffSpan>) -> (out: Vec<DiffSpan>)
    ensures
        views(out@) == without_empty_equals(views(spans@)),
{
    let mut out: Vec<DiffSpan> = Vec::new();
    let mut i: usize = 0;
    assert(views(out@) =~= without_empty_equals(views(spans@).take(0)));
    while i < spans.len()
        invariant
            i <= spans.len(),
            views(out@) == without_empty_equals(views(spans@).take(i as int)),
        decreases spans.len() - i,
    {
        let ghost before = views(out@);
        let ghost next = views(spans@).take(i + 1);
        assert(next.drop_last() =~= views(spans@).take(i as int));
        assert(next.last() == spans@[i as int]@);
        if !is_empty_equal(&spans[i]) {
            out.push(copy_span(&spans[i]));
            assert(views(out@) =~= before.push(spans@[i as int]@));
        }
        i += 1;
    }
    assert(views(spans@).take(spans.len() as int) =~= views(spans@));
    out
}

fn side(spans: &Vec<DiffSpan>, actual: bool) -> (text: Vec<char>)
    ensures
        text@ == side_from(views(spans@), actual, 0),
{
    let mut text: Vec<char> = Vec::new();
    let mut i: usize = 0;
    while i < spans.len()
        invariant
            i <= spans.len(),
            text@ + side_from(views(spans@), actual, i as int) == side_from(
                views(spans@),
                actual,
                0,
            ),
        decreases spans.len() - i,
    {
        let ghost before = text@;
        assert(views(spans@)[i as int] == spans@[i as int]@);
        match &spans[i] {
            DiffSpan::Equal(part) => {
                push_all(&mut text, &to_chars(part.as_str()));
            },
            DiffSpan::Inserted(part) => {
                if actual {
                    push_all(&mut text, &to_chars(part.as_str()));
                }
            },
            DiffSpan::Deleted(part) => {
                if !actual {
                    push_all(&mut text, &to_chars(part.as_str()));
                }
            },
        }
        assert(text@ + side_from(views(spans@), actual, i + 1) =~= before + side_from(
            views(spans@),
            actual,
            i as int,
        ));
        i += 1;
    }
    text
}

/// Compares an actual line with the expected one. Two lines that are the
/// same give one span of equal text, or none when they are empty. Other
/// lines are compared word by word. The spans come in the order of the text
/// and make up the two lines between them, and none of equal text is empty.
pub fn line_diff(expected: &str, actual: &str) -> (spans: Vec<DiffSpan>)
    ensures
        views(spans@) == line_spans(expected@, actual@),
        equals_nonempty(views(spans@)),
        spans_fit(views(spans@), expected@, actual@),
{
    proof {
        lemma_line_spans(expected@, actual@);
    }
    let e = to_chars(expected);
    let a = to_chars(actual);
    let mut spans: Vec<DiffSpan> = Vec::new();
    if same_chars(&e, &a) {
        if a.len() > 0 {
            spans.push(DiffSpan::Equal(from_chars(&a)));
        }
        assert(views(spans@) =~= line_spans(expected@, actual@));
        return spans;
    }
    let found = drop_empty_equals(&diff_chunks(expected, actual));
    if same_chars(&side(&found, false), &e) && same_chars(&side(&found, true), &a) {
        return found;
    }
    spans.push(DiffSpan::Deleted(from_chars(&e)));
    spans.push(DiffSpan::Inserted(from_chars(&a)));
    assert(views(spans@) =~= seq![SpanView::Deleted(expected@), SpanView::Inserted(actual@)]);
    spans
}

} // verus!
