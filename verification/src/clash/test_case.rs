//! A test case and how it is shown.

use crate::formatter::whitespace::{show_whitespace_chars, whitespace_shown};
use crate::outputstyle::{painted, OutputStyle};
use crate::text::{decimal, from_chars, push_all, push_decimal, to_chars};
use vstd::prelude::*;

verus! {

/// One test of a clash: an input and the output that a solution has to give
/// for it.
#[derive(Debug, Clone)]
pub struct TestCase {
    index: usize,
    pub title: String,
    pub test_in: String,
    pub test_out: String,
    pub is_validator: bool,
}

/// A test case as a mathematical value.
pub struct TestCaseView {
    /// The number of the test case among those of its clash, counted from 1.
    pub index: nat,
    pub title: Seq<char>,
    pub test_in: Seq<char>,
    pub test_out: Seq<char>,
    pub is_validator: bool,
}

impl View for TestCase {
    type V = TestCaseView;

    closed spec fn view(&self) -> TestCaseView {
        TestCaseView {
            index: self.index as nat,
            title: self.title@,
            test_in: self.test_in@,
            test_out: self.test_out@,
            is_validator: self.is_validator,
        }
    }
}

/// The title of a test case as it is shown: its number and its name.
pub open spec fn numbered_title(index: nat, title: Seq<char>) -> Seq<char> {
    seq!['#'] + decimal(index) + seq![' '] + title
}

impl TestCase {
    /// A test case with the number `index`.
    pub fn new(
        index: usize,
        title: String,
        test_in: String,
        test_out: String,
        is_validator: bool,
    ) -> (testcase: TestCase)
        ensures
            testcase@ == (TestCaseView {
                index: index as nat,
                title: title@,
                test_in: test_in@,
                test_out: test_out@,
                is_validator,
            }),
    {
        TestCase { index, title, test_in, test_out, is_validator }
    }

    /// The number of the test case among those of its clash, counted from 1.
    pub fn index(&self) -> (index: usize)
        ensures
            index == self@.index,
    {
        self.index
    }

    /// The output that a solution has to give.
    pub fn expected_output(&self) -> (out: &str)
        ensures
            out@ == self@.test_out,
    {
        self.test_out.as_str()
    }

    /// The title with the number of the test case before it, in the style of
    /// titles.
    pub fn styled_title(&self, ostyle: &OutputStyle) -> (out: String)
        ensures
            out@ == painted(ostyle.title, numbered_title(self@.index, self@.title)),
    {
        let title = to_chars(self.title.as_str());
        let mut text: Vec<char> = Vec::new();
        text.push('#');
        push_decimal(&mut text, self.index);
        text.push(' ');
        push_all(&mut text, &title);
        assert(text@ =~= numbered_title(self@.index, self@.title));
        from_chars(&ostyle.title.paint(&text))
    }

    /// The input in the style of inputs. Where the stylesheet has a style for
    /// the whitespace of inputs, the whitespace is made visible in it.
    pub fn styled_input(&self, ostyle: &OutputStyle) -> (out: String)
        ensures
            out@ == match ostyle.input_whitespace {
                Some(ws_style) => whitespace_shown(self@.test_in, ostyle.input, ws_style, 0),
                None => painted(ostyle.input, self@.test_in),
            },
    {
        let text = to_chars(self.test_in.as_str());
        match ostyle.input_whitespace {
            Some(ws_style) => from_chars(&show_whitespace_chars(&text, &ostyle.input, &ws_style)),
            None => from_chars(&ostyle.input.paint(&text)),
        }
    }

    /// The expected output in the style of outputs. Where the stylesheet has
    /// a style for the whitespace of outputs, the whitespace is made visible
    /// in it.
    pub fn styled_output(&self, ostyle: &OutputStyle) -> (out: String)
        ensures
            out@ == match ostyle.output_whitespace {
                Some(ws_style) => whitespace_shown(self@.test_out, ostyle.output, ws_style, 0),
                None => painted(ostyle.output, self@.test_out),
            },
    {
        let text = to_chars(self.test_out.as_str());
        match ostyle.output_whitespace {
            Some(ws_style) => from_chars(
                &show_whitespace_chars(&text, &ostyle.output, &ws_style),
            ),
            None => from_chars(&ostyle.output.paint(&text)),
        }
    }
}

/// Numbers the test cases of a clash in their order, from 1 on. Nothing else
/// of a test case changes.
pub fn number_testcases(testcases: &mut Vec<TestCase>)
    ensures
        final(testcases).len() == old(testcases).len(),
        forall|i: int|
            0 <= i < final(testcases).len() ==> #[trigger] final(testcases)[i]@ == (TestCaseView {
                index: (i + 1) as nat,
                ..old(testcases)[i]@
            }),
{
    let mut i: usize = 0;
    while i < testcases.len()
        invariant
            i <= testcases.len(),
            testcases.len() == old(testcases).len(),
            forall|k: int|
                0 <= k < i ==> #[trigger] testcases[k]@ == (TestCaseView {
                    index: (k + 1) as nat,
                    ..old(testcases)[k]@
                }),
            forall|k: int| i <= k < testcases.len() ==> testcases[k] == old(testcases)[k],
        decreases testcases.len() - i,
    {
        testcases[i].index = i + 1;
        i += 1;
    }
}

} // verus!
