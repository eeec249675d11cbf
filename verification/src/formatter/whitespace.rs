//! Whitespace made visible.

use crate::outputstyle::{painted, Style};
use crate::text::{copy_range, from_chars, push_all, to_chars};
use vstd::prelude::*;

verus! {

/// A character that is never painted: a space, a carriage return or a line
/// feed.
pub open spec fn is_blank(c: char) -> bool {
    c == ' ' || c == '\r' || c == '\n'
}

/// The end of the run of characters that are not blank and start at index
/// `from`.
pub open spec fn word_end(s: Seq<char>, from: int) -> int
    decreases s.len() - from,
{
    if 0 <= from < s.len() && !is_blank(s[from]) {
        word_end(s, from + 1)
    } else {
        from
    }
}

/// `s` from index `from` on with its whitespace made visible. Every longest
/// run of characters that are not blank is painted in `style`. A space
/// becomes the glyph `•` and a line feed the glyph `⏎`, both in `ws_style`,
/// and a line feed follows its glyph. A carriage return stays.
pub open spec fn whitespace_shown(s: Seq<char>, style: Style, ws_style: Style, from: int) -> Seq<
    char,
>
    decreases s.len() - from,
    via whitespace_shown_decreases
{
    if from < 0 || from >= s.len() {
        Seq::empty()
    } else if s[from] == ' ' {
        painted(ws_style, seq!['•']) + whitespace_shown(s, style, ws_style, from + 1)
    } else if s[from] == '\n' {
        painted(ws_style, seq!['⏎']) + seq!['\n'] + whitespace_shown(s, style, ws_style, from + 1)
    } else if s[from] == '\r' {
        seq!['\r'] + whitespace_shown(s, style, ws_style, from + 1)
    } else {
        painted(style, s.subrange(from, word_end(s, from))) + whitespace_shown(
            s,
            style,
            ws_style,
            word_end(s, from),
        )
    }
}

#[via_fn]
proof fn whitespace_shown_decreases(s: Seq<char>, style: Style, ws_style: Style, from: int) {
    if 0 <= from < s.len() && !is_blank(s[from]) {
        lemma_word_end(s, from + 1);
    }
}

proof fn lemma_word_end(s: Seq<char>, from: int)
    requires
        0 <= from <= s.len(),
    ensures
        from <= word_end(s, from) <= s.len(),
    decreases s.len() - from,
{
    if from < s.len() && !is_blank(s[from]) {
        lemma_word_end(s, from + 1);
    }
}

fn skip_word(s: &Vec<char>, from: usize) -> (end: usize)
    requires
        from <= s.len(),
    ensures
        end == word_end(s@, from as int),
        from <= end <= s.len(),
{
    let mut i: usize = from;
    while i < s.len() && !(s[i] == ' ' || s[i] == '\r' || s[i] == '\n')
        invariant
            from <= i <= s.len(),
            word_end(s@, i as int) == word_end(s@, from as int),
        decreases s.len() - i,
    {
        i += 1;
    }
    i
}

fn paint_glyph(glyph: char, ws_style: &Style) -> (out: Vec<char>)
    ensures
        out@ == painted(*ws_style, seq![glyph]),
{
    let mut text: Vec<char> = Vec::new();
    text.push(glyph);
    assert(text@ =~= seq![glyph]);
    ws_style.paint(&text)
}

pub(crate) fn show_whitespace_chars(s: &Vec<char>, style: &Style, ws_style: &Style) -> (out: Vec<
    char,
>)
    ensures
        out@ == whitespace_shown(s@, *style, *ws_style, 0),
{
    let space = paint_glyph('•', ws_style);
    let newline = paint_glyph('⏎', ws_style);
    let mut out: Vec<char> = Vec::new();
    let mut pos: usize = 0;
    while pos < s.len()
        invariant
            pos <= s.len(),
            space@ == painted(*ws_style, seq!['•']),
            newline@ == painted(*ws_style, seq!['⏎']),
            out@ + whitespace_shown(s@, *style, *ws_style, pos as int) == whitespace_shown(
                s@,
                *style,
                *ws_style,
                0,
            ),
        decreases s.len() - pos,
    {
        let ghost before = out@;
        let c = s[pos];
        let mut next = pos + 1;
        if c == ' ' {
            push_all(&mut out, &space);
        } else if c == '\n' {
            push_all(&mut out, &newline);
            out.push('\n');
        } else if c == '\r' {
            out.push('\r');
        } else {
            next = skip_word(s, pos);
            proof {
                lemma_word_end(s@, pos + 1);
            }
            let word = copy_range(s, pos, next);
            let shown = style.paint(&word);
            push_all(&mut out, &shown);
        }
        assert(out@ + whitespace_shown(s@, *style, *ws_style, next as int) =~= before
            + whitespace_shown(s@, *style, *ws_style, pos as int));
        pos = next;
    }
    out
}

/// Shows `text` with its whitespace made visible: a space as `•` and a line
/// feed as `⏎` followed by the line feed, both in `ws_style`, and every run
/// of other characters in `style`. The glyphs stand for the spaces and line
/// feeds of `text` alone, never for a character that painting brought in.
pub fn show_whitespace(text: &str, style: &Style, ws_style: &Style) -> (out: String)
    ensures
        out@ == whitespace_shown(text@, *style, *ws_style, 0),
{
    let chars = to_chars(text);
    from_chars(&show_whitespace_chars(&chars, style, ws_style))
}

} // verus!
