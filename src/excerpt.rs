use vstd::prelude::*;
use crate::cache::{TokenCache, is_token_at, line_range, lemma_line_range_holds_line};
use crate::diagnostic::DiagnosticLevel;
use crate::position::{Position, Span, span_contains, span_join, pos_lt};
use crate::program::{Program, tokens_wf};
use crate::style::{Piece, PieceView, Style, pieces_view, push_piece, repeat, repeat_string};
use crate::text::{decimal, decimal_of, string_from_chars};
use crate::tokens::{Token, token_span, token_start};

verus! {

/// How many tokens on each side of the marked token an excerpt shows.
pub const LINE_PEEK: usize = 3;

/// The colour of the carets for a level.
pub open spec fn caret_style(l: DiagnosticLevel) -> Style {
    match l {
        DiagnosticLevel::Info => Style::BoldGreen,
        DiagnosticLevel::Warning => Style::BoldYellow,
        DiagnosticLevel::Error => Style::BoldRed,
        DiagnosticLevel::Internal => Style::BoldWhite,
    }
}

/// The index of the token that starts at `pos`, if one does.
pub open spec fn token_at(toks: Seq<Token>, pos: Position) -> Option<int> {
    if exists|i: int| 0 <= i < toks.len() && token_start(#[trigger] toks[i]) == pos {
        Some(choose|i: int| 0 <= i < toks.len() && token_start(#[trigger] toks[i]) == pos)
    } else {
        None
    }
}

/// Where the shown text of line `ln` starts, within the window `p`.
pub open spec fn window_start(p: Span, ln: int) -> int {
    if ln == p.start.line { p.start.column as int } else { 0 }
}

/// Where the shown text of line `ln`, of `len` characters, ends within the window `p`.
pub open spec fn window_end(p: Span, ln: int, len: int) -> int {
    if ln == p.end.line { p.end.column as int } else { len }
}

/// Where the marked part of line `ln` starts: the columns of `h` on that line; on a
/// line that `h` does not reach, an empty mark at the side that faces `h`.
pub open spec fn mark_start(p: Span, h: Span, ln: int, len: int) -> int {
    if ln < h.start.line {
        window_end(p, ln, len)
    } else if ln > h.end.line {
        window_start(p, ln)
    } else if ln == h.start.line {
        h.start.column as int
    } else {
        window_start(p, ln)
    }
}

/// Where the marked part of line `ln` ends.
pub open spec fn mark_end(p: Span, h: Span, ln: int, len: int) -> int {
    if ln < h.start.line {
        window_end(p, ln, len)
    } else if ln > h.end.line {
        window_start(p, ln)
    } else if ln == h.end.line {
        h.end.column as int
    } else {
        window_end(p, ln, len)
    }
}

/// The line number shown for line `ln`, counted from one, padded to `pad` columns.
pub open spec fn gutter_number(ln: int, pad: nat) -> Seq<char> {
    let d = decimal((ln + 1) as nat);
    if d.len() < pad { d + repeat(' ', (pad - d.len()) as nat) } else { d }
}

/// The two output lines for source line `ln`: its text within the window `p`, and
/// beneath it a caret under each character of `h` on that line. `None` where the
/// columns do not fall in order within the line.
pub open spec fn line_rows(line: Seq<char>, p: Span, h: Span, pad: nat, level: DiagnosticLevel, ln: int) -> Option<Seq<PieceView>> {
    let len = line.len() as int;
    let ws = window_start(p, ln);
    let we = window_end(p, ln, len);
    let hs = mark_start(p, h, ln, len);
    let he = mark_end(p, h, ln, len);
    if 0 <= ws <= hs && hs <= he && he <= we && we <= len {
        Some(seq![
            (gutter_number(ln, pad), Style::BoldWhite),
            (" "@, Style::Plain),
            ("|"@, Style::BoldCyan),
            (" "@ + line.subrange(ws, we) + "\n"@, Style::Plain),
            (repeat(' ', pad) + " "@, Style::Plain),
            ("|"@, Style::BoldCyan),
            (" "@ + repeat(' ', (hs - ws) as nat), Style::Plain),
            (repeat('^', (he - hs) as nat), caret_style(level)),
            (repeat(' ', (we - he) as nat) + "\n"@, Style::Plain),
        ])
    } else {
        None
    }
}

/// The output lines for source lines `from` up to, not including, `to`.
pub open spec fn rows(lines: Seq<Seq<char>>, p: Span, h: Span, pad: nat, level: DiagnosticLevel, from: int, to: int) -> Option<Seq<PieceView>>
    decreases to - from,
{
    if to <= from {
        Some(seq![])
    } else {
        match (rows(lines, p, h, pad, level, from, to - 1), line_rows(lines[to - 1], p, h, pad, level, to - 1)) {
            (Some(a), Some(b)) => Some(a + b),
            _ => None,
        }
    }
}

/// The first token of the window around token `ti`, on a line whose tokens start
/// at index `lr_start`.
pub open spec fn peek_first(ti: int, lr_start: int) -> int {
    let back = if ti >= LINE_PEEK { ti - LINE_PEEK } else { 0 };
    if back > lr_start { back } else { lr_start }
}

/// The last token of the window around token `ti`, on a line whose tokens end
/// before index `lr_end`, before the end of input is left out of it.
pub open spec fn peek_last(ti: int, lr_end: int) -> int {
    if ti + LINE_PEEK < lr_end - 1 { ti + LINE_PEEK } else { lr_end - 1 }
}

/// The window of source shown around span `h`: from the start of the first to the
/// end of the last of the tokens of the line where `h` starts, up to three on each
/// side of the token that starts where `h` does, without the end of input. `None`
/// where no token starts where `h` does.
pub open spec fn excerpt_window(toks: Seq<Token>, h: Span) -> Option<Span> {
    match (token_at(toks, h.start), line_range(toks, h.start.line)) {
        (Some(ti), Some(lr)) => {
            let first = peek_first(ti, lr.start as int);
            let last0 = peek_last(ti, lr.end as int);
            let last = if last0 >= toks.len() - 1 { last0 - 1 } else { last0 };
            if last < 0 {
                None
            } else {
                Some(span_join(token_span(toks[first]), token_span(toks[last])))
            }
        },
        _ => None,
    }
}

/// The excerpt for span `h`: the lines of its window, each with carets under the
/// part of `h` on it. `None` where there is no window, where the window does not
/// hold `h`, ends on a line before it starts, or reaches past the source.
pub open spec fn excerpt(toks: Seq<Token>, lines: Seq<Seq<char>>, h: Span, pad: nat, level: DiagnosticLevel) -> Option<Seq<PieceView>> {
    match excerpt_window(toks, h) {
        Some(p) => if !span_contains(p, h) || p.end.line < p.start.line || p.end.line >= lines.len() {
            None
        } else {
            rows(lines, p, h, pad, level, p.start.line as int, p.end.line + 1)
        },
        None => None,
    }
}

/// Each line of source in an excerpt gives nine pieces: the line's number, text and
/// line break, then a blank gutter and its carets.
pub proof fn lemma_rows_shape(lines: Seq<Seq<char>>, p: Span, h: Span, pad: nat, level: DiagnosticLevel, from: int, to: int)
    requires
        from <= to,
        rows(lines, p, h, pad, level, from, to) is Some,
    ensures
        rows(lines, p, h, pad, level, from, to)->0.len() == 9 * (to - from),
        forall|k: int| 0 <= k < to - from ==> #[trigger] rows(lines, p, h, pad, level, from, to)->0.subrange(9 * k, 9 * k + 9)
            == line_rows(lines[from + k], p, h, pad, level, from + k)->0
            && line_rows(lines[from + k], p, h, pad, level, from + k) is Some,
    decreases to - from,
{
    if from < to {
        lemma_rows_shape(lines, p, h, pad, level, from, to - 1);
        let a = rows(lines, p, h, pad, level, from, to - 1)->0;
        let b = line_rows(lines[to - 1], p, h, pad, level, to - 1)->0;
        let r = rows(lines, p, h, pad, level, from, to)->0;
        assert(r == a + b);
        assert forall|k: int| 0 <= k < to - from implies #[trigger] r.subrange(9 * k, 9 * k + 9)
            == line_rows(lines[from + k], p, h, pad, level, from + k)->0
            && line_rows(lines[from + k], p, h, pad, level, from + k) is Some by {
            if k < to - 1 - from {
                assert(r.subrange(9 * k, 9 * k + 9) =~= a.subrange(9 * k, 9 * k + 9));
            } else {
                assert(r.subrange(9 * k, 9 * k + 9) =~= b);
            }
        }
    }
}

/// On each line of an excerpt the carets stand under the part of the marked span on
/// that line and nowhere else: the line's text is the window's part of it, and
/// there are as many carets as the span covers of it.
pub proof fn lemma_carets_per_line(toks: Seq<Token>, lines: Seq<Seq<char>>, h: Span, pad: nat, level: DiagnosticLevel, k: int)
    requires
        excerpt(toks, lines, h, pad, level) is Some,
        0 <= k <= excerpt_window(toks, h)->0.end.line - excerpt_window(toks, h)->0.start.line,
    ensures ({
        let p = excerpt_window(toks, h)->0;
        let e = excerpt(toks, lines, h, pad, level)->0;
        let ln = p.start.line + k;
        let len = lines[ln].len() as int;
        let ws = window_start(p, ln);
        let we = window_end(p, ln, len);
        let hs = mark_start(p, h, ln, len);
        let he = mark_end(p, h, ln, len);
        &&& e.len() == 9 * (p.end.line - p.start.line + 1)
        &&& e[9 * k + 3] == (" "@ + lines[ln].subrange(ws, we) + "\n"@, Style::Plain)
        &&& e[9 * k + 6] == (" "@ + repeat(' ', (hs - ws) as nat), Style::Plain)
        &&& e[9 * k + 7] == (repeat('^', (he - hs) as nat), caret_style(level))
        &&& (ln < h.start.line || ln > h.end.line ==> he == hs)
    }),
{
    let p = excerpt_window(toks, h)->0;
    let from = p.start.line as int;
    let to = p.end.line + 1;
    lemma_rows_shape(lines, p, h, pad, level, from, to);
    let e = rows(lines, p, h, pad, level, from, to)->0;
    assert(e.subrange(9 * k, 9 * k + 9) == line_rows(lines[from + k], p, h, pad, level, from + k)->0);
    assert(e[9 * k + 3] == e.subrange(9 * k, 9 * k + 9)[3]);
    assert(e[9 * k + 6] == e.subrange(9 * k, 9 * k + 9)[6]);
    assert(e[9 * k + 7] == e.subrange(9 * k, 9 * k + 9)[7]);
}

/// A span on one line, in a window on one line, gives one line of text and one of
/// carets, with one caret for each character of the span.
pub proof fn lemma_single_line_excerpt(toks: Seq<Token>, lines: Seq<Seq<char>>, h: Span, pad: nat, level: DiagnosticLevel)
    requires
        excerpt(toks, lines, h, pad, level) is Some,
        h.start.line == h.end.line,
        excerpt_window(toks, h)->0.start.line == excerpt_window(toks, h)->0.end.line,
    ensures
        excerpt(toks, lines, h, pad, level)->0.len() == 9,
        excerpt(toks, lines, h, pad, level)->0[7]
            == (repeat('^', (h.end.column - h.start.column) as nat), caret_style(level)),
{
    lemma_carets_per_line(toks, lines, h, pad, level, 0);
}

proof fn lemma_token_at(toks: Seq<Token>, pos: Position, r: Option<usize>)
    requires
        tokens_wf(toks),
        is_token_at(toks, pos, r),
    ensures
        r matches Some(i) ==> token_at(toks, pos) == Some(i as int),
        r is None ==> token_at(toks, pos) is None,
{
    if let Some(i) = r {
        assert(token_start(toks[i as int]) == pos);
        let j = choose|j: int| 0 <= j < toks.len() && token_start(#[trigger] toks[j]) == pos;
        if j < i {
            assert(pos_lt(token_start(toks[j]), token_start(toks[i as int])));
        } else if i < j {
            assert(pos_lt(token_start(toks[i as int]), token_start(toks[j])));
        }
    }
}

proof fn lemma_rows_fail(lines: Seq<Seq<char>>, p: Span, h: Span, pad: nat, level: DiagnosticLevel, from: int, k: int, to: int)
    requires
        from <= k < to,
        line_rows(lines[k], p, h, pad, level, k) is None,
    ensures
        rows(lines, p, h, pad, level, from, to) is None,
    decreases to - from,
{
    if k < to - 1 {
        lemma_rows_fail(lines, p, h, pad, level, from, k, to - 1);
    }
}

/// Writes the pieces for source line `ln`, whose text is `line`; false where its
/// columns do not fall in order.
fn write_line(line: &str, p: &Span, h: &Span, pad: usize, level: DiagnosticLevel, ln: usize, out: &mut Vec<Piece>) -> (ok: bool)
    ensures
        ok == line_rows(line@, *p, *h, pad as nat, level, ln as int) is Some,
        ok ==> pieces_view(final(out)@) == pieces_view(old(out)@) + line_rows(line@, *p, *h, pad as nat, level, ln as int)->0,
{
    let len = line.unicode_len();
    let ws: usize = if ln == p.start.line { p.start.column } else { 0 };
    let we: usize = if ln == p.end.line { p.end.column } else { len };
    let hs: usize = if ln < h.start.line { we } else if ln > h.end.line { ws } else if ln == h.start.line { h.start.column } else { ws };
    let he: usize = if ln < h.start.line { we } else if ln > h.end.line { ws } else if ln == h.end.line { h.end.column } else { we };
    if !(ws <= hs && hs <= he && he <= we && we <= len) {
        return false;
    }
    let ghost start = pieces_view(out@);
    let digits = decimal_of(ln as u128 + 1);
    let mut number = string_from_chars(digits.as_slice());
    if digits.len() < pad {
        let fill = repeat_string(' ', pad - digits.len());
        number.append(fill.as_str());
    }
    push_piece(out, number, Style::BoldWhite);
    push_piece(out, " ".to_owned(), Style::Plain);
    push_piece(out, "|".to_owned(), Style::BoldCyan);
    let mut text = " ".to_owned();
    text.append(line.substring_char(ws, we));
    text.append("\n");
    push_piece(out, text, Style::Plain);
    let mut blank = repeat_string(' ', pad);
    blank.append(" ");
    push_piece(out, blank, Style::Plain);
    push_piece(out, "|".to_owned(), Style::BoldCyan);
    let mut lead = " ".to_owned();
    let before = repeat_string(' ', hs - ws);
    lead.append(before.as_str());
    push_piece(out, lead, Style::Plain);
    let caret = match level {
        DiagnosticLevel::Info => Style::BoldGreen,
        DiagnosticLevel::Warning => Style::BoldYellow,
        DiagnosticLevel::Error => Style::BoldRed,
        DiagnosticLevel::Internal => Style::BoldWhite,
    };
    push_piece(out, repeat_string('^', he - hs), caret);
    let mut trail = repeat_string(' ', we - he);
    trail.append("\n");
    push_piece(out, trail, Style::Plain);
    assert(pieces_view(out@) =~= start + line_rows(line@, *p, *h, pad as nat, level, ln as int)->0);
    true
}

/// Writes the excerpt for span `h` (see `excerpt`); false where there is none.
pub fn write_span<P: Program>(program: &P, cache: &mut TokenCache, h: &Span, pad: usize, level: DiagnosticLevel, out: &mut Vec<Piece>) -> (ok: bool)
    requires
        old(cache).wf(),
        old(cache).tokens() == program.spec_tokens(),
        tokens_wf(program.spec_tokens()),
    ensures
        final(cache).wf(),
        final(cache).tokens() == old(cache).tokens(),
        ok == excerpt(program.spec_tokens(), program.spec_lines(), *h, pad as nat, level) is Some,
        ok ==> pieces_view(final(out)@) == pieces_view(old(out)@)
            + excerpt(program.spec_tokens(), program.spec_lines(), *h, pad as nat, level)->0,
{
    let ghost toks = program.spec_tokens();
    let ghost lines = program.spec_lines();
    let ti = cache.token_index(program, &h.start);
    proof {
        lemma_token_at(toks, h.start, ti);
    }
    let ti = match ti {
        Some(i) => i,
        None => return false,
    };
    proof {
        lemma_line_range_holds_line(toks, h.start.line, ti as int);
    }
    let lr = match cache.line_index(program, h.start.line) {
        Some(r) => r,
        None => return false,
    };
    let tokens = program.tokens();
    let back = if ti >= LINE_PEEK { ti - LINE_PEEK } else { 0 };
    let first = if back > lr.start { back } else { lr.start };
    let last0 = if lr.end - 1 > LINE_PEEK && ti < lr.end - 1 - LINE_PEEK { ti + LINE_PEEK } else { lr.end - 1 };
    let last = if last0 >= tokens.len() - 1 {
        if last0 == 0 {
            return false;
        }
        last0 - 1
    } else {
        last0
    };
    let p = tokens[first].as_span().join(&tokens[last].as_span());
    if !p.contains(h) || p.end.line < p.start.line {
        return false;
    }
    let ghost base = pieces_view(out@);
    let ghost from = p.start.line as int;
    let mut ln: usize = p.start.line;
    assert(excerpt(toks, lines, *h, pad as nat, level) == (if p.end.line >= lines.len() {
        None
    } else {
        rows(lines, p, *h, pad as nat, level, from, p.end.line + 1)
    }));
    assert(pieces_view(out@) =~= base + rows(lines, p, *h, pad as nat, level, from, from)->0);
    loop
        invariant_except_break
            from <= ln <= p.end.line,
            rows(lines, p, *h, pad as nat, level, from, ln as int) is Some,
            pieces_view(out@) == base + rows(lines, p, *h, pad as nat, level, from, ln as int)->0,
        invariant
            toks == program.spec_tokens(),
            old(cache).tokens() == toks,
            excerpt(toks, lines, *h, pad as nat, level) == (if p.end.line >= lines.len() {
                None
            } else {
                rows(lines, p, *h, pad as nat, level, from, p.end.line + 1)
            }),
            p.start.line <= p.end.line,
            lines == program.spec_lines(),
            cache.wf(),
            cache.tokens() == toks,
            from == p.start.line,
        ensures
            p.end.line < lines.len(),
            rows(lines, p, *h, pad as nat, level, from, p.end.line + 1) is Some,
            pieces_view(out@) == base + rows(lines, p, *h, pad as nat, level, from, p.end.line + 1)->0,
        decreases p.end.line - ln,
    {
        let whole = Span { start: Position { line: ln, column: 0 }, end: Position { line: ln, column: 0 } };
        let text = match program.slice(&whole) {
            Some(t) => t,
            None => return false,
        };
        if !write_line(text.as_str(), &p, h, pad, level, ln, out) {
            proof {
                lemma_rows_fail(lines, p, *h, pad as nat, level, from, ln as int, p.end.line + 1);
            }
            return false;
        }
        assert(pieces_view(out@) =~= base + rows(lines, p, *h, pad as nat, level, from, ln + 1)->0);
        if ln == p.end.line {
            break;
        }
        ln = ln + 1;
    }
    true
}

} // verus!
