use parsely_diagnostics::{report, Diagnostic, DiagnosticLevel, Ident, Lexeme, Position, Span, Token};

fn span(l0: usize, c0: usize, l1: usize, c1: usize) -> Span {
    Span::new(Position::new(l0, c0), Position::new(l1, c1))
}

#[test]
fn levels_of_each_kind() {
    let s = span(1, 2, 1, 3);
    assert_eq!(Diagnostic::FormatError(std::fmt::Error).level(), DiagnosticLevel::Error);
    assert_eq!(Diagnostic::IncompatibleType(s).level(), DiagnosticLevel::Error);
    assert_eq!(Diagnostic::UnexpectedEnd(s).level(), DiagnosticLevel::Error);
    assert_eq!(Diagnostic::PackFile("p".to_string(), DiagnosticLevel::Info).level(), DiagnosticLevel::Info);
    assert_eq!(
        Diagnostic::Message("m".to_string(), s, DiagnosticLevel::Warning).level(),
        DiagnosticLevel::Warning
    );
    assert_eq!(Diagnostic::Caught(s).level(), DiagnosticLevel::Internal);
    assert!(DiagnosticLevel::Internal < DiagnosticLevel::Info);
    assert!(DiagnosticLevel::Warning < DiagnosticLevel::Error);
}

#[test]
fn primary_spans_of_each_kind() {
    let a = span(1, 2, 1, 3);
    let b = span(4, 0, 4, 8);
    let raw: Vec<char> = "foo".chars().collect();
    let ident = match Ident::from_span_start(&raw, Position::new(3, 3)) {
        Token::Ident(i) => i,
        _ => unreachable!(),
    };
    assert_eq!(Diagnostic::SymbolNotFound(ident).primary_span(), span(3, 3, 3, 6));
    assert_eq!(Diagnostic::IncompatibleTypes(a, b).primary_span(), a);
    let found = Token::fixed(Lexeme::Comma, Position::new(7, 1));
    assert_eq!(
        Diagnostic::UnexpectedToken { found, expected: ";".to_string() }.primary_span(),
        span(7, 1, 7, 2)
    );
    assert_eq!(Diagnostic::UnexpectedSize { span: b, found: "x".to_string() }.primary_span(), b);
    assert_eq!(Diagnostic::Caught(b).primary_span(), b);
    assert_eq!(Diagnostic::PackFile("p".to_string(), DiagnosticLevel::Error).primary_span(), Span::empty());
    assert_eq!(Diagnostic::FormatError(std::fmt::Error).primary_span(), Span::empty());
}

#[test]
fn classification_repeats() {
    let d = Diagnostic::Message("m".to_string(), span(2, 0, 2, 1), DiagnosticLevel::Info);
    assert_eq!(d.level(), d.level());
    assert_eq!(d.primary_span(), d.primary_span());
}

#[test]
fn report_records_each_fault_once() {
    let mut list = Vec::new();
    let s = span(5, 1, 5, 4);
    let marker = report(&mut list, Diagnostic::UnexpectedEnd(s));
    assert_eq!(list.len(), 1);
    assert!(matches!(marker, Diagnostic::Caught(c) if c == s));
    let again = report(&mut list, marker);
    assert_eq!(list.len(), 1);
    assert!(matches!(again, Diagnostic::Caught(c) if c == s));
    assert_eq!(Diagnostic::UnexpectedEnd(s).caught_span(Span::empty()).primary_span(), Span::empty());
}

#[test]
fn format_error_converts_into_diagnostic() {
    let d: Diagnostic = std::fmt::Error.into();
    assert!(matches!(d, Diagnostic::FormatError(_)));
    assert_eq!(d.level(), DiagnosticLevel::Error);
}
