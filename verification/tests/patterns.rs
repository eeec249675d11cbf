//! Every scanner of the formatter is held against the regular expression
//! that describes the same language, on hand-picked and on generated texts.

use clash_render::formatter::{
    format_add_reverse_nester_tags, format_cg, format_edit_monospace, format_paint_inner_blocks,
    format_remove_excessive_newlines, format_trim_consecutive_spaces, format_warning,
    show_whitespace,
};
use clash_render::markup::{find_code_span, find_tag, Tag};
use clash_render::outputstyle::{Colour, OutputStyle, Style};
use clash_render::text::{is_space, to_chars};
use regex::{Captures, Regex};

const PICKED: [&str; 24] = [
    "",
    " ",
    "`",
    "``",
    "```",
    "````",
    "``````",
    "```code```",
    "a ``` b ``` c",
    "a ` ` b ``c``` d",
    "  ``x`  ",
    "text   `mono line` text",
    "`a` `b`",
    "x\u{a0}`\u{2003}é \t`\u{3000}y",
    "a  b `c  d` e  f",
    "``a  b`  c  `",
    "<<Next [[N]] {{3}} lines:>>",
    "<<a {{x [[N]] y}} b>>",
    "`Next [[N]] {{3}} lines:`",
    "{{Next [[N]] `Mono \n and more` lines}}",
    "<<<a>> [[ ]] {{{}}} >>",
    "[[a]]]] {{b}} <<c\n>>",
    "one\n\n\ntwo\n\n\n\n\nthree \n\t ",
    "\n\n\n",
];

/// Texts over a small alphabet that is rich in markers, from a fixed seed.
fn generated() -> Vec<String> {
    let alphabet: Vec<char> = "`` [[]]{{}}<<>>  \n\nab\té\u{a0}".chars().collect();
    let mut state: u64 = 0x2545_F491_4F6C_DD1D;
    let mut texts = Vec::new();
    for round in 0..3000 {
        let mut text = String::new();
        for _ in 0..(round % 23) {
            state ^= state << 13;
            state ^= state >> 7;
            state ^= state << 17;
            text.push(alphabet[(state % alphabet.len() as u64) as usize]);
        }
        texts.push(text);
    }
    texts
}

fn samples() -> Vec<String> {
    let mut texts: Vec<String> = PICKED.iter().map(|text| text.to_string()).collect();
    texts.extend(generated());
    texts
}

fn pattern(kind: Tag) -> Regex {
    Regex::new(match kind {
        Tag::Variable => r"\[\[((?s).*?)\]\]",
        Tag::Constant => r"\{\{((?s).*?)\}\}",
        Tag::Bold => r"<<((?s).*?)>>",
        Tag::Monospace => r"`([^`]*?)`",
    })
    .unwrap()
}

#[test]
fn tags_are_found_where_the_patterns_match() {
    for kind in [Tag::Variable, Tag::Constant, Tag::Bold, Tag::Monospace] {
        let tag = pattern(kind);
        for text in samples() {
            let by_pattern = tag.find(&text).map(|found| {
                (text[..found.start()].chars().count(), text[..found.end()].chars().count())
            });
            assert_eq!(find_tag(&to_chars(&text), kind, 0), by_pattern, "{:?} in {:?}", kind, text);
        }
    }
}

#[test]
fn monospace_is_edited_as_the_pattern_says() {
    let span = Regex::new(r"\s*`\s*([^`]+?)\s*`\s*").unwrap();
    for text in samples() {
        let single = text.replace("```", "`");
        let by_pattern = span
            .replace_all(&single, |found: &Captures| format!("\n\n`{}`\n\n", &found[1]))
            .to_string();
        assert_eq!(format_edit_monospace(&text), by_pattern, "{:?}", text);
    }
}

#[test]
fn spaces_are_trimmed_as_the_pattern_says() {
    let part = Regex::new(r"(`[^`]+`)|([^`]+)").unwrap();
    let run = Regex::new(r" +").unwrap();
    for text in samples() {
        let by_pattern = part
            .replace_all(&text, |found: &Captures| match found.get(1) {
                Some(code) => code.as_str().to_string(),
                None => run.replace_all(&found[0], " ").to_string(),
            })
            .to_string();
        assert_eq!(format_trim_consecutive_spaces(&text), by_pattern, "{:?}", text);
    }
}

fn fence_by_pattern(whole: &str, inner: &Regex, close: &str, open: &str) -> String {
    inner.replace_all(whole, |found: &Captures| format!("{}{}{}", close, &found[0], open)).to_string()
}

#[test]
fn nesting_is_taken_apart_as_the_patterns_say() {
    let variable = pattern(Tag::Variable);
    let constant = pattern(Tag::Constant);
    let bold = pattern(Tag::Bold);
    let monospace = pattern(Tag::Monospace);
    for text in samples() {
        let first = bold
            .replace_all(&text, |found: &Captures| {
                let variables = fence_by_pattern(&found[0], &variable, ">>", "<<");
                fence_by_pattern(&variables, &constant, ">>", "<<")
            })
            .to_string();
        let second = monospace
            .replace_all(&first, |found: &Captures| {
                let variables = fence_by_pattern(&found[0], &variable, "`", "`");
                fence_by_pattern(&variables, &constant, "`", "`")
            })
            .to_string();
        let third = constant
            .replace_all(&second, |found: &Captures| {
                fence_by_pattern(&found[0], &variable, "}}", "{{")
            })
            .to_string();
        assert_eq!(format_add_reverse_nester_tags(&text), third, "{:?}", text);
    }
}

#[test]
fn newlines_are_collapsed_as_the_pattern_says() {
    let run = Regex::new(r"\n\n\n+").unwrap();
    for text in samples() {
        let by_pattern = run.replace_all(&text, "\n\n").trim_end().to_string();
        assert_eq!(format_remove_excessive_newlines(&text), by_pattern, "{:?}", text);
    }
}

#[test]
fn the_obsolete_form_is_seen_where_the_pattern_matches() {
    let obsolete = Regex::new(r"```([^`]*?)```").unwrap();
    let ostyle = OutputStyle::default();
    for text in samples() {
        assert_eq!(format_warning(&text, &ostyle).is_some(), obsolete.is_match(&text), "{:?}", text);
    }
}

#[test]
fn code_spans_are_found_where_the_pattern_matches() {
    let span = Regex::new(r"`[^`]+`").unwrap();
    for text in samples() {
        let by_pattern = span.find(&text).map(|found| {
            (text[..found.start()].chars().count(), text[..found.end()].chars().count() - 1)
        });
        assert_eq!(find_code_span(&to_chars(&text), 0), by_pattern, "{:?}", text);
    }
}

#[test]
fn whitespace_is_what_the_standard_library_says() {
    for c in (0..=0x10FFFF_u32).filter_map(char::from_u32) {
        assert_eq!(is_space(c), c.is_whitespace(), "{:?}", c);
    }
}

fn ansi_colour(colour: Colour) -> ansi_term::Colour {
    match colour {
        Colour::Black => ansi_term::Colour::Black,
        Colour::Red => ansi_term::Colour::Red,
        Colour::Green => ansi_term::Colour::Green,
        Colour::Yellow => ansi_term::Colour::Yellow,
        Colour::Blue => ansi_term::Colour::Blue,
        Colour::Purple => ansi_term::Colour::Purple,
        Colour::Cyan => ansi_term::Colour::Cyan,
        Colour::White => ansi_term::Colour::White,
        Colour::Fixed(n) => ansi_term::Colour::Fixed(n),
        Colour::Rgb(r, g, b) => ansi_term::Colour::RGB(r, g, b),
    }
}

fn ansi(style: &Style) -> ansi_term::Style {
    let mut ansi = ansi_term::Style::new();
    ansi.foreground = style.foreground.map(ansi_colour);
    ansi.background = style.background.map(ansi_colour);
    ansi.is_bold = style.bold;
    ansi.is_dimmed = style.dimmed;
    ansi.is_italic = style.italic;
    ansi.is_underline = style.underline;
    ansi.is_blink = style.blink;
    ansi.is_reverse = style.reverse;
    ansi.is_hidden = style.hidden;
    ansi.is_strikethrough = style.strikethrough;
    ansi
}

fn styles() -> Vec<Style> {
    let plain = Style::new();
    let mut styles = vec![
        plain,
        Style { bold: true, ..plain },
        Style { dimmed: true, ..plain },
        Style { italic: true, ..plain },
        Style { underline: true, ..plain },
        Style { blink: true, ..plain },
        Style { reverse: true, ..plain },
        Style { hidden: true, ..plain },
        Style { strikethrough: true, ..plain },
        plain.bold().dimmed().fg(Colour::Red).on(Colour::Rgb(9, 8, 7)),
    ];
    let colours = [
        Colour::Black,
        Colour::Red,
        Colour::Green,
        Colour::Yellow,
        Colour::Blue,
        Colour::Purple,
        Colour::Cyan,
        Colour::White,
        Colour::Fixed(0),
        Colour::Fixed(200),
        Colour::Rgb(255, 0, 17),
    ];
    for colour in colours {
        styles.push(plain.fg(colour));
        styles.push(plain.on(colour));
    }
    styles
}

#[test]
fn every_style_paints_as_the_terminal_library_does() {
    let mut ostyle = OutputStyle::default();
    for style in styles() {
        ostyle.variable = style;
        assert_eq!(
            format_paint_inner_blocks("[[some text]]", &ostyle),
            ansi(&style).paint("some text").to_string(),
            "{:?}",
            style
        );
    }
}

/// The four patterns, in the order in which the tags are painted.
fn patterns() -> [Regex; 4] {
    [pattern(Tag::Variable), pattern(Tag::Constant), pattern(Tag::Bold), pattern(Tag::Monospace)]
}

fn paint_by_pattern(text: &str, ostyle: &OutputStyle, tags: &[Regex; 4]) -> String {
    let variables = tags[0]
        .replace_all(text, |found: &Captures| ansi(&ostyle.variable).paint(&found[1]).to_string())
        .to_string();
    let constants = tags[1]
        .replace_all(&variables, |found: &Captures| {
            ansi(&ostyle.constant).paint(&found[1]).to_string()
        })
        .to_string();
    let bold = tags[2]
        .replace_all(&constants, |found: &Captures| ansi(&ostyle.bold).paint(&found[1]).to_string())
        .to_string();
    tags[3]
        .replace_all(&bold, |found: &Captures| {
            let rows: Vec<&str> = found[1].split('\n').collect();
            let width = rows.iter().map(|row| row.chars().count()).max().unwrap_or(0);
            let shown: Vec<String> = rows
                .iter()
                .map(|row| {
                    if row.chars().count() > 1 {
                        ansi(&ostyle.monospace).paint(format!("{:<width$}", row)).to_string()
                    } else {
                        row.to_string()
                    }
                })
                .collect();
            shown.join("\n")
        })
        .to_string()
}

#[test]
fn tags_are_painted_as_the_patterns_say() {
    let ostyle = OutputStyle::default();
    let tags = patterns();
    for text in samples() {
        assert_eq!(
            format_paint_inner_blocks(&text, &ostyle),
            paint_by_pattern(&text, &ostyle, &tags),
            "{:?}",
            text
        );
    }
}

#[test]
fn whitespace_is_shown_as_the_pattern_says() {
    let word = Regex::new(r"[^\r\n ]+").unwrap();
    let style = Style::new().fg(Colour::Green);
    let ws_style = Style::new().dimmed();
    let newline = format!("{}\n", ansi(&ws_style).paint("⏎"));
    let space = ansi(&ws_style).paint("•").to_string();
    for text in samples() {
        let by_pattern = word
            .replace_all(&text, |found: &Captures| ansi(&style).paint(&found[0]).to_string())
            .replace('\n', &newline)
            .replace(' ', &space);
        assert_eq!(show_whitespace(&text, &style, &ws_style), by_pattern, "{:?}", text);
    }
}

#[test]
fn a_statement_goes_through_the_five_steps() {
    let ostyle = OutputStyle::default();
    let tags = patterns();
    for text in samples() {
        let edited = format_edit_monospace(&text);
        let trimmed = format_trim_consecutive_spaces(&edited);
        let nested = format_add_reverse_nester_tags(&trimmed);
        let painted = paint_by_pattern(&nested, &ostyle, &tags);
        let tidy = format_remove_excessive_newlines(&painted);
        assert_eq!(format_cg(&text, &ostyle), tidy, "{:?}", text);
    }
}
