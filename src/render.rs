use vstd::prelude::*;
use crate::cache::TokenCache;
use crate::diagnostic::{Diagnostic, DiagnosticLevel, level_of, primary_span_of};
use crate::excerpt::{excerpt, write_span};
use crate::position::Span;
use crate::program::{Program, tokens_wf};
use crate::style::{Piece, PieceView, Style, pieces_view, push_piece, repeat, repeat_string};
use crate::text::{decimal, decimal_of, string_from_chars};
use crate::tokens::{Token, lexeme_text, token_span};

verus! {

/// The text that names a token in a message.
pub open spec fn token_text(t: Token) -> Seq<char> {
    match t {
        Token::Ident(i) => i.value@,
        Token::Int(i) => decimal(i.value as nat),
        Token::Float(f) => f.text@,
        Token::Bool(b) => if b.value { "true"@ } else { "false"@ },
        Token::String(s) => "\""@ + s.value@ + "\""@,
        Token::Char(c) => "'"@ + seq![c.value] + "'"@,
        Token::Fixed(l, _) => lexeme_text(l),
        Token::Eof(_) => "end of input"@,
    }
}

/// The name of a level, in its colour; nothing for `Internal`.
pub open spec fn level_label(l: DiagnosticLevel) -> Seq<PieceView> {
    match l {
        DiagnosticLevel::Internal => seq![],
        DiagnosticLevel::Info => seq![("info"@, Style::BoldCyan)],
        DiagnosticLevel::Warning => seq![("warning"@, Style::BoldYellow)],
        DiagnosticLevel::Error => seq![("error"@, Style::BoldRed)],
    }
}

/// A line break.
pub open spec fn line_break() -> PieceView {
    ("\n"@, Style::Plain)
}

/// What a diagnostic says, through the end of its first line.
pub open spec fn message(d: Diagnostic) -> Seq<PieceView> {
    match d {
        Diagnostic::FormatError(_) => seq![
            ("Error when formatting into buffer: an error occurred when formatting an argument\n"@, Style::Plain),
        ],
        Diagnostic::SymbolNotFound(i) => seq![
            ("Symbol `"@ + i.value@ + "` not found in scope"@, Style::Bold),
            line_break(),
        ],
        Diagnostic::IncompatibleType(_) => seq![("Unexpected type"@, Style::Bold), line_break()],
        Diagnostic::IncompatibleTypes(_, _) => seq![
            ("Types don't match in expression"@, Style::Bold),
            line_break(),
        ],
        Diagnostic::UnexpectedToken { found, expected } => seq![
            ("Expected `"@ + expected@ + "` but found `"@ + token_text(found) + "`"@, Style::Plain),
            line_break(),
        ],
        Diagnostic::UnexpectedSize { found, .. } => seq![
            ("Expected size but found `"@ + found@ + "`"@, Style::Plain),
            line_break(),
        ],
        Diagnostic::UnexpectedEnd(_) => seq![("Unexpected end of input"@, Style::Plain), line_break()],
        Diagnostic::PackFile(m, _) => seq![("Pack File: "@, Style::Plain), (m@, Style::Bold), line_break()],
        Diagnostic::Message(m, _, _) => seq![(m@, Style::Bold), line_break()],
        Diagnostic::Caught(_) => seq![line_break()],
    }
}

/// The first line of a diagnostic: level, colon and message. Nothing at all for a
/// diagnostic of `Internal` level.
pub open spec fn header(d: Diagnostic) -> Seq<PieceView> {
    if level_of(d) == DiagnosticLevel::Internal {
        seq![]
    } else {
        level_label(level_of(d)) + seq![(": "@, Style::Bold)] + message(d)
    }
}

/// The spans that the contextual renderer draws for a diagnostic, in order.
pub open spec fn marked_spans(d: Diagnostic) -> Seq<Span> {
    match d {
        Diagnostic::SymbolNotFound(i) => seq![i.span],
        Diagnostic::IncompatibleType(s) => seq![s],
        Diagnostic::IncompatibleTypes(a, b) => seq![a, b],
        Diagnostic::UnexpectedToken { found, .. } => seq![token_span(found)],
        Diagnostic::UnexpectedSize { span, .. } => seq![span],
        Diagnostic::UnexpectedEnd(s) => seq![s],
        Diagnostic::Message(_, s, _) => seq![s],
        _ => seq![],
    }
}

/// The last line that any of `spans` reaches.
pub open spec fn max_end_line(spans: Seq<Span>) -> nat
    decreases spans.len(),
{
    if spans.len() == 0 {
        0
    } else {
        let m = max_end_line(spans.drop_last());
        if m < spans.last().end.line { spans.last().end.line as nat } else { m }
    }
}

/// The width of the gutter: the digits of the largest line number the diagnostic
/// refers to, counted from one.
pub open spec fn gutter_width(d: Diagnostic) -> nat {
    decimal(max_end_line(marked_spans(d)) + 1).len()
}

/// The line that points at a place: ` --> path:line:column`, counted from one.
pub open spec fn pointer(path: Seq<char>, s: Span) -> Seq<PieceView> {
    seq![
        (" "@, Style::Plain),
        ("-->"@, Style::BoldCyan),
        (" "@ + path + ":"@ + decimal((s.start.line + 1) as nat) + ":"@ + decimal((s.start.column + 1) as nat) + "\n"@, Style::Plain),
    ]
}

/// An empty line of gutter.
pub open spec fn blank_gutter(pad: nat) -> Seq<PieceView> {
    seq![(repeat(' ', pad) + " "@, Style::Plain), ("|"@, Style::BoldCyan), line_break()]
}

/// The excerpts for `spans`, one after another.
pub open spec fn excerpts(toks: Seq<Token>, lines: Seq<Seq<char>>, spans: Seq<Span>, pad: nat, level: DiagnosticLevel) -> Option<Seq<PieceView>>
    decreases spans.len(),
{
    if spans.len() == 0 {
        Some(seq![])
    } else {
        match (excerpts(toks, lines, spans.drop_last(), pad, level), excerpt(toks, lines, spans.last(), pad, level)) {
            (Some(a), Some(b)) => Some(a + b),
            _ => None,
        }
    }
}

/// A diagnostic as the contextual renderer shows it against a program with tokens
/// `toks`, source `lines` and path `path`: its first line, the place it points at,
/// and an excerpt for each of its spans between two empty lines of gutter. Nothing
/// for one of `Internal` level; only the first line for a formatting failure.
/// `None` where a span has no excerpt, or for a package-file fault, which has no place.
pub open spec fn render_in_context(d: Diagnostic, toks: Seq<Token>, lines: Seq<Seq<char>>, path: Seq<char>) -> Option<Seq<PieceView>> {
    if level_of(d) == DiagnosticLevel::Internal {
        Some(seq![])
    } else if d is FormatError {
        Some(header(d))
    } else if d is PackFile {
        None
    } else {
        let pad = gutter_width(d);
        match excerpts(toks, lines, marked_spans(d), pad, level_of(d)) {
            Some(e) => Some(header(d) + pointer(path, primary_span_of(d)) + blank_gutter(pad) + e + blank_gutter(pad)),
            None => None,
        }
    }
}

/// The first lines of `ds`, one after another.
pub open spec fn headers(ds: Seq<Diagnostic>) -> Seq<PieceView>
    decreases ds.len(),
{
    if ds.len() == 0 {
        seq![]
    } else {
        headers(ds.drop_last()) + header(ds.last())
    }
}

/// The contextual rendering of `ds`, one after another; `None` where one has none.
pub open spec fn render_all_in_context(ds: Seq<Diagnostic>, toks: Seq<Token>, lines: Seq<Seq<char>>, path: Seq<char>) -> Option<Seq<PieceView>>
    decreases ds.len(),
{
    if ds.len() == 0 {
        Some(seq![])
    } else {
        match (render_all_in_context(ds.drop_last(), toks, lines, path), render_in_context(ds.last(), toks, lines, path)) {
            (Some(a), Some(b)) => Some(a + b),
            _ => None,
        }
    }
}

proof fn lemma_small_span_lists(toks: Seq<Token>, lines: Seq<Seq<char>>, a: Span, b: Span, pad: nat, level: DiagnosticLevel)
    ensures
        max_end_line(seq![a]) == a.end.line,
        max_end_line(seq![a, b]) == if a.end.line < b.end.line { b.end.line as nat } else { a.end.line as nat },
        excerpts(toks, lines, seq![a], pad, level) == excerpt(toks, lines, a, pad, level),
        excerpts(toks, lines, seq![a, b], pad, level) == match (excerpt(toks, lines, a, pad, level), excerpt(toks, lines, b, pad, level)) {
            (Some(x), Some(y)) => Some(x + y),
            _ => None,
        },
{
    reveal_with_fuel(max_end_line, 3);
    reveal_with_fuel(excerpts, 3);
    assert(seq![a].drop_last() =~= Seq::<Span>::empty());
    assert(seq![a, b].drop_last() =~= seq![a]);
    assert(seq![a].last() == a);
    assert(seq![a, b].last() == b);
    if let Some(x) = excerpt(toks, lines, a, pad, level) {
        assert(Seq::<PieceView>::empty() + x =~= x);
    }
}

/// A diagnostic of `Internal` level gives no output from either renderer.
pub proof fn lemma_internal_is_silent(d: Diagnostic, toks: Seq<Token>, lines: Seq<Seq<char>>, path: Seq<char>)
    requires
        level_of(d) == DiagnosticLevel::Internal,
    ensures
        header(d) == Seq::<PieceView>::empty(),
        render_in_context(d, toks, lines, path) == Some(Seq::<PieceView>::empty()),
{
}

/// Rendering one list against one program twice gives the same output both times:
/// the output is a function of the diagnostics and the program alone.
pub proof fn lemma_rendering_repeats(ds: Seq<Diagnostic>, toks: Seq<Token>, lines: Seq<Seq<char>>, path: Seq<char>, first: Option<Seq<PieceView>>, second: Option<Seq<PieceView>>)
    requires
        first == render_all_in_context(ds, toks, lines, path),
        second == render_all_in_context(ds, toks, lines, path),
    ensures
        first == second,
{
}

/// The text that names `t` in a message.
pub fn token_text_of(t: &Token) -> (r: String)
    ensures
        r@ == token_text(*t),
{
    match t {
        Token::Ident(i) => i.value.clone(),
        Token::Int(i) => string_from_chars(decimal_of(i.value as u128).as_slice()),
        Token::Float(f) => f.text.clone(),
        Token::Bool(b) => if b.value { "true".to_owned() } else { "false".to_owned() },
        Token::String(s) => {
            let mut r = "\"".to_owned();
            r.append(s.value.as_str());
            r.append("\"");
            r
        },
        Token::Char(c) => {
            let mut r = "'".to_owned();
            let v = vec![c.value];
            let ch = string_from_chars(v.as_slice());
            r.append(ch.as_str());
            r.append("'");
            r
        },
        Token::Fixed(l, _) => string_from_chars(l.text().as_slice()),
        Token::Eof(_) => "end of input".to_owned(),
    }
}

fn push_str(out: &mut Vec<Piece>, text: &str, style: Style)
    ensures
        pieces_view(final(out)@) == pieces_view(old(out)@).push((text@, style)),
{
    push_piece(out, text.to_owned(), style);
}

fn push_decimal_succ(t: &mut String, n: usize)
    ensures
        final(t)@ == old(t)@ + decimal((n + 1) as nat),
{
    let d = string_from_chars(decimal_of(n as u128 + 1).as_slice());
    t.append(d.as_str());
}

fn push_blank_gutter(out: &mut Vec<Piece>, pad: usize)
    ensures
        pieces_view(final(out)@) == pieces_view(old(out)@) + blank_gutter(pad as nat),
{
    let ghost start = pieces_view(out@);
    let mut t = repeat_string(' ', pad);
    t.append(" ");
    push_piece(out, t, Style::Plain);
    push_str(out, "|", Style::BoldCyan);
    push_str(out, "\n", Style::Plain);
    assert(pieces_view(out@) =~= start + blank_gutter(pad as nat));
}

impl Diagnostic {
    /// Writes the first line of this diagnostic, its level and message, to `out`;
    /// writes nothing for one of `Internal` level.
    pub fn format(&self, out: &mut Vec<Piece>)
        ensures
            pieces_view(final(out)@) == pieces_view(old(out)@) + header(*self),
    {
        let ghost start = pieces_view(out@);
        match self.level() {
            DiagnosticLevel::Internal => {
                assert(pieces_view(out@) =~= start + header(*self));
                return;
            },
            DiagnosticLevel::Info => push_str(out, "info", Style::BoldCyan),
            DiagnosticLevel::Warning => push_str(out, "warning", Style::BoldYellow),
            DiagnosticLevel::Error => push_str(out, "error", Style::BoldRed),
        }
        push_str(out, ": ", Style::Bold);
        self.format_message(out);
        assert(pieces_view(out@) =~= start + header(*self));
    }

    fn format_message(&self, out: &mut Vec<Piece>)
        ensures
            pieces_view(final(out)@) == pieces_view(old(out)@) + message(*self),
    {
        let ghost start = pieces_view(out@);
        match self {
            Diagnostic::FormatError(_) => {
                push_str(
                    out,
                    "Error when formatting into buffer: an error occurred when formatting an argument\n",
                    Style::Plain,
                );
                assert(pieces_view(out@) =~= start + message(*self));
                return;
            },
            Diagnostic::SymbolNotFound(i) => {
                let mut t = "Symbol `".to_owned();
                t.append(i.value.as_str());
                t.append("` not found in scope");
                push_piece(out, t, Style::Bold);
            },
            Diagnostic::IncompatibleType(_) => push_str(out, "Unexpected type", Style::Bold),
            Diagnostic::IncompatibleTypes(_, _) => {
                push_str(out, "Types don't match in expression", Style::Bold);
            },
            Diagnostic::UnexpectedToken { found, expected } => {
                let mut t = "Expected `".to_owned();
                t.append(expected.as_str());
                t.append("` but found `");
                let f = token_text_of(found);
                t.append(f.as_str());
                t.append("`");
                push_piece(out, t, Style::Plain);
            },
            Diagnostic::UnexpectedSize { found, .. } => {
                let mut t = "Expected size but found `".to_owned();
                t.append(found.as_str());
                t.append("`");
                push_piece(out, t, Style::Plain);
            },
            Diagnostic::UnexpectedEnd(_) => push_str(out, "Unexpected end of input", Style::Plain),
            Diagnostic::PackFile(m, _) => {
                push_str(out, "Pack File: ", Style::Plain);
                push_piece(out, m.clone(), Style::Bold);
            },
            Diagnostic::Message(m, _, _) => push_piece(out, m.clone(), Style::Bold),
            Diagnostic::Caught(_) => {},
        }
        push_str(out, "\n", Style::Plain);
        assert(pieces_view(out@) =~= start + message(*self));
    }
}

impl Diagnostic {
    /// The last line that the spans this diagnostic draws reach.
    fn last_marked_line(&self) -> (r: usize)
        ensures
            r == max_end_line(marked_spans(*self)),
    {
        match self {
            Diagnostic::IncompatibleTypes(a, b) => {
                proof {
                    lemma_small_span_lists(Seq::empty(), Seq::empty(), *a, *b, 0, DiagnosticLevel::Error);
                }
                if a.end.line < b.end.line { b.end.line } else { a.end.line }
            },
            _ => {
                proof {
                    let spans = marked_spans(*self);
                    if spans.len() > 0 {
                        lemma_small_span_lists(Seq::empty(), Seq::empty(), spans[0], spans[0], 0, DiagnosticLevel::Error);
                        assert(spans == seq![spans[0]]);
                    }
                }
                match self {
                    Diagnostic::SymbolNotFound(i) => i.span.end.line,
                    Diagnostic::IncompatibleType(s) => s.end.line,
                    Diagnostic::UnexpectedToken { found, .. } => found.as_span().end.line,
                    Diagnostic::UnexpectedSize { span, .. } => span.end.line,
                    Diagnostic::UnexpectedEnd(s) => s.end.line,
                    Diagnostic::Message(_, s, _) => s.end.line,
                    _ => 0,
                }
            },
        }
    }

    fn write_pointer(&self, path: &str, span: &Span, out: &mut Vec<Piece>)
        ensures
            pieces_view(final(out)@) == pieces_view(old(out)@) + pointer(path@, *span),
    {
        let ghost start = pieces_view(out@);
        push_str(out, " ", Style::Plain);
        push_str(out, "-->", Style::BoldCyan);
        let mut t = " ".to_owned();
        t.append(path);
        t.append(":");
        push_decimal_succ(&mut t, span.start.line);
        t.append(":");
        push_decimal_succ(&mut t, span.start.column);
        t.append("\n");
        push_piece(out, t, Style::Plain);
        assert(pieces_view(out@) =~= start + pointer(path@, *span));
    }

    fn write_spans<P: Program>(&self, program: &P, cache: &mut TokenCache, pad: usize, level: DiagnosticLevel, out: &mut Vec<Piece>) -> (ok: bool)
        requires
            old(cache).wf(),
            old(cache).tokens() == program.spec_tokens(),
            tokens_wf(program.spec_tokens()),
        ensures
            final(cache).wf(),
            final(cache).tokens() == old(cache).tokens(),
            ok == excerpts(program.spec_tokens(), program.spec_lines(), marked_spans(*self), pad as nat, level) is Some,
            ok ==> pieces_view(final(out)@) == pieces_view(old(out)@)
                + excerpts(program.spec_tokens(), program.spec_lines(), marked_spans(*self), pad as nat, level)->0,
    {
        let ghost start = pieces_view(out@);
        let ghost spans = marked_spans(*self);
        let ghost toks = program.spec_tokens();
        let ghost lines = program.spec_lines();
        let one = match self {
            Diagnostic::IncompatibleTypes(a, b) => {
                proof {
                    lemma_small_span_lists(toks, lines, *a, *b, pad as nat, level);
                }
                if !write_span(program, cache, a, pad, level, out) {
                    return false;
                }
                let ok = write_span(program, cache, b, pad, level, out);
                assert(ok ==> pieces_view(out@) =~= start + excerpts(toks, lines, spans, pad as nat, level)->0);
                return ok;
            },
            Diagnostic::SymbolNotFound(i) => i.span,
            Diagnostic::IncompatibleType(s) => *s,
            Diagnostic::UnexpectedToken { found, .. } => found.as_span(),
            Diagnostic::UnexpectedSize { span, .. } => *span,
            Diagnostic::UnexpectedEnd(s) => *s,
            Diagnostic::Message(_, s, _) => *s,
            _ => {
                assert(pieces_view(out@) =~= start + excerpts(toks, lines, spans, pad as nat, level)->0);
                return true;
            },
        };
        assert(spans == seq![one]);
        proof {
            lemma_small_span_lists(toks, lines, one, one, pad as nat, level);
        }
        let ok = write_span(program, cache, &one, pad, level, out);
        assert(ok ==> pieces_view(out@) =~= start + excerpts(toks, lines, spans, pad as nat, level)->0);
        ok
    }

    /// Writes this diagnostic to `out` with the source it points at, as excerpts of
    /// `program`; `cache` must index the tokens of `program`. False, with `out` left
    /// partly written, where there is no such rendering (see `render_in_context`).
    pub fn format_module<P: Program>(&self, program: &P, cache: &mut TokenCache, out: &mut Vec<Piece>) -> (ok: bool)
        requires
            old(cache).wf(),
            old(cache).tokens() == program.spec_tokens(),
            tokens_wf(program.spec_tokens()),
        ensures
            final(cache).wf(),
            final(cache).tokens() == old(cache).tokens(),
            ok == render_in_context(*self, program.spec_tokens(), program.spec_lines(), program.spec_path()) is Some,
            ok ==> pieces_view(final(out)@) == pieces_view(old(out)@)
                + render_in_context(*self, program.spec_tokens(), program.spec_lines(), program.spec_path())->0,
    {
        let ghost start = pieces_view(out@);
        let level = self.level();
        if level == DiagnosticLevel::Internal {
            assert(pieces_view(out@) =~= start + seq![]);
            return true;
        }
        if let Diagnostic::PackFile(_, _) = self {
            return false;
        }
        self.format(out);
        if let Diagnostic::FormatError(_) = self {
            return true;
        }
        let pad = decimal_of(self.last_marked_line() as u128 + 1).len();
        let span = self.primary_span();
        self.write_pointer(program.path(), &span, out);
        push_blank_gutter(out, pad);
        if !self.write_spans(program, cache, pad, level, out) {
            return false;
        }
        push_blank_gutter(out, pad);
        assert(pieces_view(out@) =~= start
            + render_in_context(*self, program.spec_tokens(), program.spec_lines(), program.spec_path())->0);
        true
    }
}

/// The plain renderer over a list of diagnostics: each one's first line, in order.
pub struct DiagnosticFmt<'a>(pub &'a [Diagnostic]);

impl<'a> DiagnosticFmt<'a> {
    /// The first line of each diagnostic, in the order of the list.
    pub fn render(&self) -> (r: Vec<Piece>)
        ensures
            pieces_view(r@) == headers(self.0@),
    {
        let ds = self.0;
        let mut out: Vec<Piece> = Vec::new();
        let mut i: usize = 0;
        assert(pieces_view(out@) =~= headers(ds@.subrange(0, 0)));
        while i < ds.len()
            invariant
                i <= ds.len(),
                pieces_view(out@) == headers(ds@.subrange(0, i as int)),
            decreases ds.len() - i,
        {
            ds[i].format(&mut out);
            i = i + 1;
            assert(ds@.subrange(0, i as int).drop_last() =~= ds@.subrange(0, i - 1));
        }
        assert(ds@.subrange(0, i as int) =~= ds@);
        out
    }
}

/// The contextual renderer over the diagnostics of one program, which share one
/// token cache.
pub struct DiagnosticModuleFmt<'a, P: Program>(pub &'a [Diagnostic], pub &'a P);

impl<'a, P: Program> DiagnosticModuleFmt<'a, P> {
    /// Each diagnostic with excerpts of the program, in the order of the list; `None`
    /// where one of them has no such rendering.
    pub fn render(&self) -> (r: Option<Vec<Piece>>)
        requires
            tokens_wf(self.1.spec_tokens()),
        ensures
            r is Some <==> render_all_in_context(self.0@, self.1.spec_tokens(), self.1.spec_lines(), self.1.spec_path()) is Some,
            r is Some ==> pieces_view(r->0@)
                == render_all_in_context(self.0@, self.1.spec_tokens(), self.1.spec_lines(), self.1.spec_path())->0,
    {
        let ds = self.0;
        let program = self.1;
        let ghost toks = program.spec_tokens();
        let ghost lines = program.spec_lines();
        let ghost path = program.spec_path();
        let mut cache = TokenCache::new(program);
        let mut out: Vec<Piece> = Vec::new();
        let mut i: usize = 0;
        assert(pieces_view(out@) =~= render_all_in_context(ds@.subrange(0, 0), toks, lines, path)->0);
        while i < ds.len()
            invariant
                i <= ds.len(),
                ds == self.0,
                program == self.1,
                toks == program.spec_tokens(),
                lines == program.spec_lines(),
                path == program.spec_path(),
                tokens_wf(toks),
                cache.wf(),
                cache.tokens() == toks,
                render_all_in_context(ds@.subrange(0, i as int), toks, lines, path) is Some,
                pieces_view(out@) == render_all_in_context(ds@.subrange(0, i as int), toks, lines, path)->0,
            decreases ds.len() - i,
        {
            let ok = ds[i].format_module(program, &mut cache, &mut out);
            assert(ds@.subrange(0, i + 1).drop_last() =~= ds@.subrange(0, i as int));
            if !ok {
                proof {
                    lemma_render_all_fails(ds@, toks, lines, path, i as int, ds@.len() as int);
                    assert(ds@.subrange(0, ds@.len() as int) =~= ds@);
                }
                return None;
            }
            i = i + 1;
        }
        assert(ds@.subrange(0, i as int) =~= ds@);
        Some(out)
    }
}

proof fn lemma_render_all_fails(ds: Seq<Diagnostic>, toks: Seq<Token>, lines: Seq<Seq<char>>, path: Seq<char>, k: int, n: int)
    requires
        0 <= k < n <= ds.len(),
        render_in_context(ds[k], toks, lines, path) is None,
    ensures
        render_all_in_context(ds.subrange(0, n), toks, lines, path) is None,
        n == ds.len() ==> render_all_in_context(ds, toks, lines, path) is None,
    decreases n - k,
{
    if n == ds.len() {
        assert(ds.subrange(0, n) =~= ds);
    }
    assert(ds.subrange(0, n).drop_last() =~= ds.subrange(0, n - 1));
    if k < n - 1 {
        lemma_render_all_fails(ds, toks, lines, path, k, n - 1);
    } else {
        assert(ds.subrange(0, n).last() == ds[k]);
    }
}

} // verus!
