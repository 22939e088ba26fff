use parsely_diagnostics::tokens;
use parsely_diagnostics::{
    to_plain_text, Diagnostic, DiagnosticFmt, DiagnosticLevel, DiagnosticModuleFmt, Ident, Lexeme,
    Position, SourceFile, Span, Style, Token,
};

fn ident(name: &str, line: usize, column: usize) -> Token {
    let raw: Vec<char> = name.chars().collect();
    Ident::from_span_start(&raw, Position::new(line, column))
}

fn fixed(lexeme: Lexeme, line: usize, column: usize) -> Token {
    Token::fixed(lexeme, Position::new(line, column))
}

fn integer(text: &str, line: usize, column: usize) -> Token {
    let raw: Vec<char> = text.chars().collect();
    tokens::Int::from_span_start(&raw, Position::new(line, column)).unwrap()
}

fn eof(line: usize, column: usize) -> Token {
    let p = Position::new(line, column);
    Token::Eof(Span::new(p, p))
}

/// `let x = 1;` / `let y = "z;` / `let z = x + y;`
fn unterminated() -> SourceFile {
    let tokens = vec![
        ident("let", 0, 0),
        ident("x", 0, 4),
        fixed(Lexeme::Assign, 0, 6),
        integer("1", 0, 8),
        fixed(Lexeme::Semi, 0, 9),
        ident("let", 1, 0),
        ident("y", 1, 4),
        fixed(Lexeme::Assign, 1, 6),
        fixed(Lexeme::Quote, 1, 8),
        ident("z", 1, 9),
        fixed(Lexeme::Semi, 1, 10),
        ident("let", 2, 0),
        ident("z", 2, 4),
        fixed(Lexeme::Assign, 2, 6),
        ident("x", 2, 8),
        fixed(Lexeme::Plus, 2, 10),
        ident("y", 2, 12),
        fixed(Lexeme::Semi, 2, 13),
        eof(2, 14),
    ];
    SourceFile {
        path: "main.par".to_string(),
        lines: vec![
            "let x = 1;".to_string(),
            "let y = \"z;".to_string(),
            "let z = x + y;".to_string(),
        ],
        tokens,
    }
}

fn render_in_context(diags: &[Diagnostic], program: &SourceFile) -> Option<String> {
    DiagnosticModuleFmt(diags, program).render().map(|p| to_plain_text(&p))
}

fn render_plain(diags: &[Diagnostic]) -> String {
    to_plain_text(&DiagnosticFmt(diags).render())
}

fn span(l0: usize, c0: usize, l1: usize, c1: usize) -> Span {
    Span::new(Position::new(l0, c0), Position::new(l1, c1))
}

#[test]
fn unexpected_end_after_unterminated_quote() {
    let program = unterminated();
    let diags = vec![Diagnostic::UnexpectedEnd(span(1, 9, 1, 10))];
    let text = render_in_context(&diags, &program).unwrap();
    assert_eq!(
        text,
        "error: Unexpected end of input\n --> main.par:2:10\n  |\n2 | y = \"z;\n  |      ^ \n  |\n"
    );
}

#[test]
fn two_missing_symbols_render_in_order() {
    let program = unterminated();
    let x = match ident("x", 0, 4) {
        Token::Ident(i) => i,
        _ => unreachable!(),
    };
    let y = match ident("y", 2, 12) {
        Token::Ident(i) => i,
        _ => unreachable!(),
    };
    let diags = vec![Diagnostic::SymbolNotFound(x), Diagnostic::SymbolNotFound(y)];
    let text = render_in_context(&diags, &program).unwrap();
    let first = "error: Symbol `x` not found in scope\n --> main.par:1:5\n  |\n1 | let x = 1;\n  |     ^     \n  |\n";
    let second = "error: Symbol `y` not found in scope\n --> main.par:3:13\n  |\n3 | = x + y;\n  |       ^ \n  |\n";
    assert_eq!(text, format!("{first}{second}"));
}

#[test]
fn plain_warning_has_no_excerpt() {
    let diags = vec![Diagnostic::Message(
        "unreachable".to_string(),
        Span::empty(),
        DiagnosticLevel::Warning,
    )];
    let pieces = DiagnosticFmt(&diags).render();
    assert_eq!(to_plain_text(&pieces), "warning: unreachable\n");
    assert_eq!(pieces[0].style, Style::BoldYellow);
    assert!(!to_plain_text(&pieces).contains("-->"));
}

#[test]
fn internal_diagnostics_print_nothing() {
    let program = unterminated();
    let diags = vec![
        Diagnostic::Caught(span(1, 9, 1, 10)),
        Diagnostic::Message("hidden".to_string(), Span::empty(), DiagnosticLevel::Internal),
    ];
    assert_eq!(render_plain(&diags), "");
    assert_eq!(render_in_context(&diags, &program).unwrap(), "");
}

#[test]
fn rendering_twice_gives_the_same_text() {
    let program = unterminated();
    let diags = vec![
        Diagnostic::UnexpectedEnd(span(1, 9, 1, 10)),
        Diagnostic::IncompatibleTypes(span(2, 8, 2, 9), span(2, 12, 2, 13)),
    ];
    let first = render_in_context(&diags, &program).unwrap();
    let second = render_in_context(&diags, &program).unwrap();
    assert_eq!(first, second);
    assert_eq!(render_plain(&diags), render_plain(&diags));
}

#[test]
fn mismatched_types_draw_both_spans() {
    let program = unterminated();
    let diags = vec![Diagnostic::IncompatibleTypes(span(2, 8, 2, 9), span(2, 12, 2, 13))];
    let text = render_in_context(&diags, &program).unwrap();
    let expected = [
        "error: Types don't match in expression\n --> main.par:3:9\n  |\n",
        "3 | let z = x + y;\n  |         ^     \n",
        "3 | = x + y;\n  |       ^ \n",
        "  |\n",
    ]
    .concat();
    assert_eq!(text, expected);
}

#[test]
fn multi_line_span_marks_each_line() {
    let string = tokens::String {
        value: "x\nyz".to_string(),
        span: span(0, 4, 1, 3),
    };
    let program = SourceFile {
        path: "f.par".to_string(),
        lines: vec!["a = \"x".to_string(), "yz\";".to_string()],
        tokens: vec![
            ident("a", 0, 0),
            fixed(Lexeme::Assign, 0, 2),
            Token::String(string),
            fixed(Lexeme::Semi, 1, 3),
            eof(1, 4),
        ],
    };
    let diags = vec![Diagnostic::IncompatibleType(span(0, 4, 1, 3))];
    let text = render_in_context(&diags, &program).unwrap();
    assert_eq!(
        text,
        "error: Unexpected type\n --> f.par:1:5\n  |\n1 | a = \"x\n  |     ^^\n2 | yz\"\n  | ^^^\n  |\n"
    );
}

#[test]
fn single_line_span_has_one_caret_per_character() {
    let program = unterminated();
    let diags = vec![Diagnostic::Message(
        "here".to_string(),
        span(2, 8, 2, 13),
        DiagnosticLevel::Info,
    )];
    let pieces = DiagnosticModuleFmt(&diags, &program).render().unwrap();
    let carets: Vec<_> = pieces.iter().filter(|p| p.text.contains('^')).collect();
    assert_eq!(carets.len(), 1);
    assert_eq!(carets[0].text, "^^^^^");
    assert_eq!(carets[0].style, Style::BoldGreen);
    let text = to_plain_text(&pieces);
    assert_eq!(text.lines().filter(|l| l.starts_with("3 |")).count(), 1);
}

#[test]
fn unexpected_token_names_both_tokens() {
    let diags = vec![Diagnostic::UnexpectedToken {
        found: fixed(Lexeme::CloseBrace, 11, 4),
        expected: ";".to_string(),
    }];
    assert_eq!(render_plain(&diags), "error: Expected `;` but found `}`\n");
    let diags = vec![Diagnostic::UnexpectedToken {
        found: integer("42", 0, 0),
        expected: "name".to_string(),
    }];
    assert_eq!(render_plain(&diags), "error: Expected `name` but found `42`\n");
}

#[test]
fn plain_messages_of_each_kind() {
    let diags = vec![
        Diagnostic::FormatError(std::fmt::Error),
        Diagnostic::IncompatibleType(Span::empty()),
        Diagnostic::UnexpectedSize { span: Span::empty(), found: "int7".to_string() },
        Diagnostic::PackFile("bad entry".to_string(), DiagnosticLevel::Info),
    ];
    assert_eq!(
        render_plain(&diags),
        [
            "error: Error when formatting into buffer: an error occurred when formatting an argument\n",
            "error: Unexpected type\n",
            "error: Expected size but found `int7`\n",
            "info: Pack File: bad entry\n",
        ]
        .concat()
    );
}

#[test]
fn span_without_token_has_no_excerpt() {
    let program = unterminated();
    let diags = vec![Diagnostic::UnexpectedEnd(span(1, 11, 1, 12))];
    assert_eq!(render_in_context(&diags, &program), None);
    let diags = vec![Diagnostic::PackFile("x".to_string(), DiagnosticLevel::Error)];
    assert_eq!(render_in_context(&diags, &program), None);
}

#[test]
fn format_error_in_context_prints_its_line_only() {
    let program = unterminated();
    let diags = vec![Diagnostic::FormatError(std::fmt::Error)];
    assert_eq!(
        render_in_context(&diags, &program).unwrap(),
        "error: Error when formatting into buffer: an error occurred when formatting an argument\n"
    );
}

fn ten_lines() -> SourceFile {
    let mut tokens = Vec::new();
    let mut lines = Vec::new();
    for l in 0..10 {
        tokens.push(ident("x", l, 0));
        tokens.push(fixed(Lexeme::Semi, l, 1));
        lines.push("x;".to_string());
    }
    tokens.push(eof(9, 2));
    SourceFile { path: "t.par".to_string(), lines, tokens }
}

#[test]
fn gutter_widens_for_two_digit_lines() {
    let program = ten_lines();
    let diags = vec![Diagnostic::UnexpectedEnd(span(9, 1, 9, 2))];
    assert_eq!(
        render_in_context(&diags, &program).unwrap(),
        "error: Unexpected end of input\n --> t.par:10:2\n   |\n10 | x;\n   |  ^\n   |\n"
    );
    let diags = vec![Diagnostic::UnexpectedEnd(span(8, 1, 8, 2))];
    assert_eq!(
        render_in_context(&diags, &program).unwrap(),
        "error: Unexpected end of input\n --> t.par:9:2\n  |\n9 | x;\n  |  ^\n  |\n"
    );
}

#[test]
fn empty_lists_render_nothing() {
    let program = ten_lines();
    assert_eq!(render_plain(&[]), "");
    assert_eq!(render_in_context(&[], &program).unwrap(), "");
}
