use clash_render::formatter::{
    format_add_reverse_nester_tags, format_cg, format_edit_monospace,
    format_paint_inner_blocks, format_remove_excessive_newlines, format_trim_consecutive_spaces,
    format_warning, show_whitespace,
};
use clash_render::markup::{find_tag, Tag};
use clash_render::outputstyle::{Colour, OutputStyle, Style};
use clash_render::text::to_chars;

#[test]
fn trim_spaces_with_format() {
    let text = "hello  world";

    assert_eq!(format_trim_consecutive_spaces(text), "hello world");
}

#[test]
fn does_not_trim_spaces_in_monospace() {
    let text = "`{\n    let x = 5;\n}`";

    assert!(format_trim_consecutive_spaces(text).contains("{\n    let x = 5;\n}"));
}

#[test]
fn format_monospace_coloring_removes_backticks() {
    let text = "To create a new variable use `let x = 5`";
    let formatted_text = format_paint_inner_blocks(text, &OutputStyle::default());

    assert!(!formatted_text.contains("`"));
}

#[test]
fn format_monospace_adds_newline_if_there_is_none() {
    let text = "I have `no whitespace`";
    let formatted_text = format_edit_monospace(text);

    assert!(formatted_text.contains("\n"));
}

#[test]
fn format_monospace_trims_trailing_spaces() {
    let text = "I have `no whitespace`        and more text";
    let formatted_text = format_edit_monospace(text);

    assert!(!formatted_text.contains("\n "));
}

#[test]
fn format_monospace_more_newlines_1() {
    let text: &str = "1text   `mono line` text";
    let formatted_text = format_edit_monospace(text);
    let expected = "1text\n\n`mono line`\n\ntext";

    assert_eq!(formatted_text, expected);
}

#[test]
fn format_monospace_more_newlines_2() {
    let text: &str = "2text   \n\n`mono line\nnew line`  \n  text";
    let formatted_text = format_edit_monospace(text);
    let expected = "2text\n\n`mono line\nnew line`\n\ntext";

    assert_eq!(formatted_text, expected);
}

#[test]
fn format_monospace_more_newlines_3() {
    let text: &str =
        "3textspaces   \n\n   \n    `\n   \n  mono line\nnew line  \n   \n`   \n   \n   textspaces";
    let formatted_text = format_edit_monospace(text);
    let expected = "3textspaces\n\n`mono line\nnew line`\n\ntextspaces";

    assert_eq!(formatted_text, expected);
}

#[test]
fn format_monospace_more_newlines_4() {
    let text: &str = "4text\n\n`mono line`\n\ntext";
    let formatted_text = format_edit_monospace(text);
    let expected = "4text\n\n`mono line`\n\ntext";

    assert_eq!(formatted_text, expected);
}

#[test]
fn format_correctly_add_nested_tags() {
    let text = "<<Next [[N]] {{3}} lines:>>";
    let formatted_text = format_add_reverse_nester_tags(text);
    let expected = "<<Next >>[[N]]<< >>{{3}}<< lines:>>";

    assert_eq!(formatted_text, expected);
}

#[test]
fn format_correctly_paint_nested_tags() {
    let text = "<<Next [[N]] {{3}} lines:>>";
    let ostyle = &OutputStyle::default();
    let formatted_text = format_cg(text, ostyle);
    let expected = vec![
        format_cg("<<Next >>", ostyle),
        format_cg("[[N]]", ostyle),
        format_cg("<< >>", ostyle),
        format_cg("{{3}}", ostyle),
        format_cg("<< lines:>>", ostyle),
    ]
    .join("");

    assert_eq!(formatted_text, expected);
}

#[test]
fn format_matches_newlines_bold() {
    let text = "<<Bold text spread \n across two lines:>>";

    assert_eq!(find_tag(&to_chars(text), Tag::Bold, 0).is_some(), true);
}

#[test]
fn format_deals_with_newspaces() {
    let text = "Text with many\n\n\n\n\nnewlines\n\n";
    let formatted_text = format_remove_excessive_newlines(text);
    let expected = "Text with many\n\nnewlines";

    assert_eq!(formatted_text, expected);
}

#[test]
fn variable_is_painted_in_its_style() {
    let ostyle = OutputStyle::default();
    assert_eq!(format_cg("[[VARIABLE]]", &ostyle), "\u{1b}[33mVARIABLE\u{1b}[0m");
}

#[test]
fn paint_goes_through_every_attribute() {
    let mut ostyle = OutputStyle::default();
    ostyle.variable = Style {
        foreground: Some(Colour::Rgb(1, 2, 3)),
        background: Some(Colour::Fixed(7)),
        bold: true,
        dimmed: true,
        italic: true,
        underline: true,
        blink: true,
        reverse: true,
        hidden: true,
        strikethrough: true,
    };
    assert_eq!(
        format_paint_inner_blocks("[[x]]", &ostyle),
        "\u{1b}[1;2;3;4;5;7;8;9;48;5;7;38;2;1;2;3mx\u{1b}[0m"
    );
}

#[test]
fn monospace_rows_are_padded_to_the_widest() {
    let mut ostyle = OutputStyle::default();
    ostyle.monospace = Style::new().fg(Colour::Cyan);
    let shown = format_paint_inner_blocks("`abc\nx\n\nzz`", &ostyle);
    assert_eq!(shown, "\u{1b}[36mabc\u{1b}[0m\nx\n\n\u{1b}[36mzz \u{1b}[0m");
}

#[test]
fn whitespace_is_shown_with_glyphs() {
    let style = Style::new().fg(Colour::Green);
    let ws = Style::new().fg(Colour::Red);
    let shown = show_whitespace("a b\r\n", &style, &ws);
    assert_eq!(
        shown,
        "\u{1b}[32ma\u{1b}[0m\u{1b}[31m•\u{1b}[0m\u{1b}[32mb\u{1b}[0m\r\u{1b}[31m⏎\u{1b}[0m\n"
    );
}

#[test]
fn warning_only_for_three_backticks() {
    let ostyle = OutputStyle::default();
    assert_eq!(format_warning("plain `code` text", &ostyle), None);
    assert_eq!(format_warning("``` not closed", &ostyle), None);
    assert_eq!(
        format_warning("```code```", &ostyle),
        Some(
            "\u{1b}[31mWARNING\u{1b}[0m Clash contains obsolete ``` formatting, consider fixing it in the website.\n\n"
                .to_string()
        )
    );
}

#[test]
fn monospace_is_set_apart() {
    assert_eq!(format_edit_monospace("text   `mono line` text"), "text\n\n`mono line`\n\ntext");
    assert_eq!(format_edit_monospace("```a\nb```"), "\n\n`a\nb`\n\n");
    assert_eq!(format_edit_monospace("a` \t `b"), "a\n\n` `\n\nb");
    assert_eq!(format_edit_monospace("a``b"), "a``b");
    assert_eq!(format_edit_monospace("no code"), "no code");
    assert_eq!(format_edit_monospace(""), "");
}

#[test]
fn spaces_inside_code_stay() {
    assert_eq!(format_trim_consecutive_spaces("x  y `a   b`  z"), "x y `a   b` z");
    assert_eq!(format_trim_consecutive_spaces("x\t\ty \n  z"), "x\t\ty \n z");
    assert_eq!(format_trim_consecutive_spaces("`a  b"), "`a b");
}

#[test]
fn plain_text_only_loses_spaces_and_line_feeds() {
    let ostyle = OutputStyle::default();
    assert_eq!(format_cg("a  b\n\n\n\nc ] > }  \n \t", &ostyle), "a b\n\nc ] > }");
    assert_eq!(format_cg("a b\n\nc", &ostyle), "a b\n\nc");
    assert_eq!(format_cg("[ [a] ] { {b} } < <c> >", &ostyle), "[ [a] ] { {b} } < <c> >");
    assert_eq!(format_cg("", &ostyle), "");
}

#[test]
fn markers_without_partner_stay() {
    let ostyle = OutputStyle::default();
    assert_eq!(format_cg("[[a {{b <<c `d", &ostyle), "[[a {{b <<c `d");
    assert_eq!(format_cg("a]] b}} c>>", &ostyle), "a]] b}} c>>");
}

#[test]
fn nesting_is_taken_apart_one_level_deep() {
    assert_eq!(format_add_reverse_nester_tags("`a [[b]] c`"), "`a `[[b]]` c`");
    assert_eq!(format_add_reverse_nester_tags("{{a [[b]] c}}"), "{{a }}[[b]]{{ c}}");
    assert_eq!(format_add_reverse_nester_tags("[[a <<b>> c]]"), "[[a <<b>> c]]");
    assert_eq!(format_add_reverse_nester_tags("<<a\n[[b]]>>"), "<<a\n>>[[b]]<<>>");
}

#[test]
fn a_whole_statement_is_formatted() {
    let ostyle = OutputStyle::default();
    let text = "Read  [[N]] lines.\n\n\n\nPrint ```{{YES}}``` or   <<nothing>>.  \n";
    assert_eq!(
        format_cg(text, &ostyle),
        "Read \u{1b}[33mN\u{1b}[0m lines.\n\nPrint\n\n\u{1b}[34mYES\u{1b}[0m\n\nor \u{1b}[1mnothing\u{1b}[0m."
    );
}
