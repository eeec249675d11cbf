use clash_render::outputstyle::OutputStyle;
use clash_render::solution::diff::{diff_plan, render_diff, render_write, walk_spans, DiffWrite};
use clash_render::solution::lines::split_lines;
use clash_render::solution::spans::{line_diff, DiffSpan};

fn matched(text: &str) -> DiffWrite {
    DiffWrite::Matched(text.to_string())
}

fn mismatch(text: &str) -> DiffWrite {
    DiffWrite::Mismatch(text.to_string())
}

#[test]
fn lines_keep_their_line_feeds() {
    assert_eq!(split_lines("a\nbc\n"), vec!["a\n", "bc\n"]);
    assert_eq!(split_lines("a\nbc"), vec!["a\n", "bc"]);
    assert_eq!(split_lines("\n\nx"), vec!["\n", "\n", "x"]);
    assert_eq!(split_lines("\r\n"), vec!["\r\n"]);
    assert_eq!(split_lines(""), Vec::<String>::new());
}

#[test]
fn lines_in_a_row_are_the_text_again() {
    for text in ["", "\n", "a", "a\n", "a\n\nb", "one\ntwo\nthree", "é\n\u{2022}\n\n"] {
        assert_eq!(split_lines(text).concat(), text);
    }
}

#[test]
fn same_lines_are_one_equal_span() {
    assert_eq!(line_diff("abc\n", "abc\n"), vec![DiffSpan::Equal("abc\n".to_string())]);
    assert_eq!(line_diff("", ""), vec![]);
}

#[test]
fn other_lines_are_compared_word_by_word() {
    assert_eq!(
        line_diff("hello\n", "hallo\n"),
        vec![
            DiffSpan::Equal("h".to_string()),
            DiffSpan::Deleted("e".to_string()),
            DiffSpan::Inserted("a".to_string()),
            DiffSpan::Equal("llo\n".to_string()),
        ]
    );
    assert_eq!(
        line_diff("abcd\n", "abd\n"),
        vec![
            DiffSpan::Equal("ab".to_string()),
            DiffSpan::Deleted("c".to_string()),
            DiffSpan::Equal("d\n".to_string()),
        ]
    );
    assert_eq!(line_diff("abc", ""), vec![DiffSpan::Deleted("abc".to_string())]);
    assert_eq!(line_diff("", "abc"), vec![DiffSpan::Inserted("abc".to_string())]);
}

#[test]
fn walk_marks_the_place_behind_a_deletion() {
    let spans = vec![
        DiffSpan::Equal("ab".to_string()),
        DiffSpan::Deleted("c".to_string()),
        DiffSpan::Equal("d\n".to_string()),
    ];
    assert_eq!(walk_spans(&spans), vec![matched("ab"), mismatch("d"), matched("\n")]);
}

#[test]
fn walk_writes_no_rest_of_a_single_character() {
    let spans = vec![DiffSpan::Deleted("x".to_string()), DiffSpan::Equal("y".to_string())];
    assert_eq!(walk_spans(&spans), vec![mismatch("y")]);
}

#[test]
fn walk_keeps_the_mark_over_an_insertion() {
    let spans = vec![
        DiffSpan::Deleted("e".to_string()),
        DiffSpan::Inserted("a".to_string()),
        DiffSpan::Equal("llo".to_string()),
        DiffSpan::Equal("!".to_string()),
    ];
    assert_eq!(
        walk_spans(&spans),
        vec![mismatch("a"), mismatch("l"), matched("lo"), matched("!")]
    );
}

#[test]
fn walk_of_nothing_writes_nothing() {
    assert_eq!(walk_spans(&vec![]), vec![]);
}

#[test]
fn same_outputs_have_no_mismatch() {
    let text = "1 2 3\nfour\n\nsix";
    assert_eq!(
        diff_plan(text, text),
        vec![matched("1 2 3\n"), matched("four\n"), matched("\n"), matched("six"), DiffWrite::LineEnd]
    );
}

#[test]
fn a_changed_word_is_marked_within_its_line() {
    assert_eq!(
        diff_plan("say hello\nbye\n", "say hallo\nbye\n"),
        vec![matched("say h"), mismatch("a"), mismatch("l"), matched("lo\n"), matched("bye\n")]
    );
}

#[test]
fn lines_behind_the_expected_ones_are_mismatches() {
    assert_eq!(diff_plan("a\n", "a\nb\nc"), vec![
        matched("a\n"),
        mismatch("b\n"),
        mismatch("c"),
        DiffWrite::LineEnd,
    ]);
    assert_eq!(diff_plan("", "x\n"), vec![mismatch("x\n")]);
}

#[test]
fn missing_lines_are_counted() {
    assert_eq!(diff_plan("a\nb\nc\n", "a\n"), vec![matched("a\n"), DiffWrite::MissingLines(2)]);
    assert_eq!(
        diff_plan("a\nb\nc\nd", "a"),
        vec![matched("a"), DiffWrite::LineEnd, DiffWrite::MissingLines(3)]
    );
    for k in 0..5 {
        let actual = "x\n".repeat(2);
        let expected = "x\n".repeat(2 + k);
        let plan = diff_plan(&expected, &actual);
        let counts: Vec<&DiffWrite> =
            plan.iter().filter(|write| matches!(write, DiffWrite::MissingLines(_))).collect();
        if k == 0 {
            assert!(counts.is_empty());
        } else {
            assert_eq!(counts, vec![&DiffWrite::MissingLines(k)]);
            assert_eq!(plan.last(), Some(&DiffWrite::MissingLines(k)));
        }
    }
}

#[test]
fn no_output_is_said_once() {
    assert_eq!(diff_plan("a\nb\n", ""), vec![DiffWrite::NoOutput]);
    assert_eq!(diff_plan("", ""), vec![DiffWrite::NoOutput]);
    assert_eq!(
        render_diff("a\nb\n", "", &OutputStyle::default()),
        vec!["\u{1b}[2m(no output)\u{1b}[0m\n"]
    );
}

#[test]
fn writes_are_rendered_in_their_styles() {
    let ostyle = OutputStyle::default();
    assert_eq!(
        render_write(&matched("a b\n"), &ostyle),
        "\u{1b}[32ma\u{1b}[0m\u{1b}[32m•\u{1b}[0m\u{1b}[32mb\u{1b}[0m\u{1b}[32m⏎\u{1b}[0m\n"
    );
    assert_eq!(render_write(&mismatch(" x"), &ostyle), "\u{1b}[31m•\u{1b}[0m\u{1b}[31mx\u{1b}[0m");
    assert_eq!(render_write(&DiffWrite::LineEnd, &ostyle), "\n");
    assert_eq!(
        render_write(&DiffWrite::MissingLines(12), &ostyle),
        "\u{1b}[2m(expected 12 more lines)\u{1b}[0m\n"
    );
}

#[test]
fn a_diff_is_rendered_write_by_write() {
    let ostyle = OutputStyle::default();
    assert_eq!(
        render_diff("ab\nc\n", "ab", &ostyle),
        vec!["\u{1b}[32mab\u{1b}[0m".to_string(), "\n".to_string(), "\u{1b}[2m(expected 1 more lines)\u{1b}[0m\n".to_string()]
    );
}

#[test]
fn counts_are_written_in_decimal() {
    let ostyle = OutputStyle::default();
    for count in [0, 1, 9, 10, 11, 99, 100, 101, 12345, 1000000, usize::MAX] {
        assert_eq!(
            render_write(&DiffWrite::MissingLines(count), &ostyle),
            format!("\u{1b}[2m(expected {} more lines)\u{1b}[0m\n", count)
        );
    }
}

/// Pairs of outputs over a small alphabet, from a fixed seed.
fn generated_pairs() -> Vec<(String, String)> {
    let alphabet: Vec<char> = "aab  \n\n.é".chars().collect();
    let mut state: u64 = 0x9E37_79B9_7F4A_7C15;
    let mut next = move || {
        state ^= state << 13;
        state ^= state >> 7;
        state ^= state << 17;
        state
    };
    let mut pairs = Vec::new();
    for round in 0..2000 {
        let mut expected = String::new();
        for _ in 0..(round % 17) {
            expected.push(alphabet[(next() % alphabet.len() as u64) as usize]);
        }
        let mut actual = String::new();
        for c in expected.chars() {
            match next() % 8 {
                0 => {},
                1 => {
                    actual.push(c);
                    actual.push(alphabet[(next() % alphabet.len() as u64) as usize]);
                },
                2 => actual.push(alphabet[(next() % alphabet.len() as u64) as usize]),
                _ => actual.push(c),
            }
        }
        pairs.push((expected, actual));
    }
    pairs
}

/// The writes for one line, straight from the chunks of the comparison.
fn walk_chunks(expected: &str, actual: &str) -> Vec<DiffWrite> {
    let mut writes = Vec::new();
    let mut after_deletion = false;
    for chunk in dissimilar::diff(expected, actual) {
        match chunk {
            dissimilar::Chunk::Delete(_) => after_deletion = true,
            dissimilar::Chunk::Insert(text) => writes.push(mismatch(text)),
            dissimilar::Chunk::Equal(text) => {
                if after_deletion {
                    let first = text.chars().next().unwrap();
                    writes.push(mismatch(&first.to_string()));
                    if text.len() > first.len_utf8() {
                        writes.push(matched(&text[first.len_utf8()..]));
                    }
                } else {
                    writes.push(matched(text));
                }
                after_deletion = false;
            },
        }
    }
    writes
}

#[test]
fn the_plan_is_the_walk_over_the_chunks_of_every_line() {
    for (expected, actual) in generated_pairs() {
        let mut writes = Vec::new();
        if actual.is_empty() {
            writes.push(DiffWrite::NoOutput);
        } else {
            let expected_lines: Vec<&str> = expected.split_inclusive('\n').collect();
            let actual_lines: Vec<&str> = actual.split_inclusive('\n').collect();
            for (place, line) in actual_lines.iter().enumerate() {
                match expected_lines.get(place) {
                    Some(expected_line) => writes.extend(walk_chunks(expected_line, line)),
                    None => writes.push(mismatch(line)),
                }
            }
            if !actual.ends_with('\n') {
                writes.push(DiffWrite::LineEnd);
            }
            if expected_lines.len() > actual_lines.len() {
                writes.push(DiffWrite::MissingLines(expected_lines.len() - actual_lines.len()));
            }
        }
        assert_eq!(diff_plan(&expected, &actual), writes, "{:?} {:?}", expected, actual);
    }
}

#[test]
fn the_text_that_is_written_is_the_output() {
    for (expected, actual) in generated_pairs() {
        let mut written = String::new();
        for write in diff_plan(&expected, &actual) {
            match write {
                DiffWrite::Matched(text) | DiffWrite::Mismatch(text) => written.push_str(&text),
                _ => {},
            }
        }
        assert_eq!(written, actual, "{:?} {:?}", expected, actual);
    }
}

#[test]
fn lines_are_split_as_the_standard_library_does() {
    for (expected, actual) in generated_pairs() {
        for text in [expected, actual] {
            let lines: Vec<&str> = text.split_inclusive('\n').collect();
            assert_eq!(split_lines(&text), lines, "{:?}", text);
        }
    }
}
