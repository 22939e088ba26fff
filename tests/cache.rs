use parsely_diagnostics::{Ident, Lexeme, Position, Range, SourceFile, Span, Token, TokenCache};

fn ident(name: &str, line: usize, column: usize) -> Token {
    let raw: Vec<char> = name.chars().collect();
    Ident::from_span_start(&raw, Position::new(line, column))
}

/// `a b` / `` / `c;` / end of input on line 3.
fn program() -> SourceFile {
    let end = Position::new(3, 0);
    SourceFile {
        path: "t.par".to_string(),
        lines: vec!["a b".to_string(), String::new(), "c;".to_string(), String::new()],
        tokens: vec![
            ident("a", 0, 0),
            ident("b", 0, 2),
            ident("c", 2, 0),
            Token::fixed(Lexeme::Semi, Position::new(2, 1)),
            Token::Eof(Span::new(end, end)),
        ],
    }
}

#[test]
fn line_index_is_idempotent() {
    let p = program();
    let mut cache = TokenCache::new(&p);
    let first = cache.line_index(&p, 0);
    let second = cache.line_index(&p, 0);
    assert_eq!(first, Some(Range { start: 0, end: 2 }));
    assert_eq!(first, second);
}

#[test]
fn line_index_runs_through_end_of_input() {
    let p = program();
    let mut cache = TokenCache::new(&p);
    assert_eq!(cache.line_index(&p, 2), Some(Range { start: 2, end: 5 }));
    assert_eq!(cache.line_index(&p, 3), Some(Range { start: 4, end: 5 }));
}

#[test]
fn line_index_of_blank_line_is_none() {
    let p = program();
    let mut cache = TokenCache::new(&p);
    assert_eq!(cache.line_index(&p, 1), None);
    assert_eq!(cache.line_index(&p, 9), None);
}

#[test]
fn token_index_finds_tokens() {
    let p = program();
    let mut cache = TokenCache::new(&p);
    assert_eq!(cache.token_index(&p, &Position::new(0, 2)), Some(1));
    assert_eq!(cache.token_index(&p, &Position::new(0, 0)), Some(0));
    assert_eq!(cache.token_index(&p, &Position::new(2, 1)), Some(3));
    assert_eq!(cache.token_index(&p, &Position::new(2, 1)), Some(3));
}

#[test]
fn token_index_of_absent_position_is_none() {
    let p = program();
    let mut cache = TokenCache::new(&p);
    assert_eq!(cache.token_index(&p, &Position::new(0, 1)), None);
    assert_eq!(cache.token_index(&p, &Position::new(1, 0)), None);
    assert_eq!(cache.token_index(&p, &Position::new(0, 1)), None);
    assert_eq!(cache.token_index(&p, &Position::new(0, 2)), Some(1));
}

#[test]
fn token_streams_are_checked() {
    let p = program();
    assert!(parsely_diagnostics::check_tokens(&p.tokens));
    let mut unsorted = program().tokens;
    unsorted.swap(0, 1);
    assert!(!parsely_diagnostics::check_tokens(&unsorted));
    let mut no_end = program().tokens;
    no_end.pop();
    assert!(!parsely_diagnostics::check_tokens(&no_end));
    assert!(!parsely_diagnostics::check_tokens(&[]));
}
