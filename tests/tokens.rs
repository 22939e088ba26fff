use parsely_diagnostics::tokens;
use parsely_diagnostics::{Bool, Char, Ident, Int, Lexeme, Position, Span, Token};

fn chars(s: &str) -> Vec<char> {
    s.chars().collect()
}

fn run(line: usize, column: usize, len: usize) -> Span {
    Span::new(Position::new(line, column), Position::new(line, column + len))
}

#[test]
fn ident_from_span_start() {
    match Ident::from_span_start(&chars("name"), Position::new(2, 3)) {
        Token::Ident(i) => {
            assert_eq!(i.value, "name");
            assert_eq!(i.span, run(2, 3, 4));
        }
        _ => panic!("not an identifier"),
    }
}

#[test]
fn int_from_span_start() {
    match Int::from_span_start(&chars("1234"), Position::new(0, 1)) {
        Some(Token::Int(i)) => {
            assert_eq!(i.value, 1234);
            assert_eq!(i.span, run(0, 1, 4));
        }
        _ => panic!("not an integer"),
    }
    match Int::from_span_start(&chars("18446744073709551615"), Position::new(0, 0)) {
        Some(Token::Int(i)) => assert_eq!(i.value, u64::MAX),
        _ => panic!("not an integer"),
    }
    match Int::from_span_start(&chars("+7"), Position::new(0, 0)) {
        Some(Token::Int(i)) => assert_eq!(i.value, 7),
        _ => panic!("not an integer"),
    }
    assert!(Int::from_span_start(&chars("18446744073709551616"), Position::new(0, 0)).is_none());
    assert!(Int::from_span_start(&chars("4a"), Position::new(0, 0)).is_none());
    assert!(Int::from_span_start(&chars(""), Position::new(0, 0)).is_none());
    assert!(Int::from_span_start(&chars("+"), Position::new(0, 0)).is_none());
}

#[test]
fn bool_from_value_and_text() {
    match Bool::from_value(true, &chars("true"), Position::new(1, 1)) {
        Token::Bool(b) => {
            assert!(b.value);
            assert_eq!(b.span, run(1, 1, 4));
        }
        _ => panic!("not a bool"),
    }
    match Bool::from_span_start("false", Position::new(0, 0)) {
        Some(Token::Bool(b)) => {
            assert!(!b.value);
            assert_eq!(b.span, run(0, 0, 5));
        }
        _ => panic!("not a bool"),
    }
    match Bool::from_span_start("true", Position::new(0, 0)) {
        Some(Token::Bool(b)) => assert!(b.value),
        _ => panic!("not a bool"),
    }
    assert!(Bool::from_span_start("yes", Position::new(0, 0)).is_none());
}

#[test]
fn string_from_span_start() {
    match tokens::String::from_span_start("\"hi there\"", Position::new(0, 5)) {
        Some(Token::String(s)) => {
            assert_eq!(s.value, "hi there");
            assert_eq!(s.span, run(0, 5, 10));
        }
        _ => panic!("not a string"),
    }
    assert!(tokens::String::from_span_start("\"", Position::new(0, 0)).is_none());
}

#[test]
fn char_from_span_start() {
    match Char::from_span_start("'q'", Position::new(4, 0)) {
        Some(Token::Char(c)) => {
            assert_eq!(c.value, 'q');
            assert_eq!(c.span, run(4, 0, 3));
        }
        _ => panic!("not a char"),
    }
    assert!(Char::from_span_start("''", Position::new(0, 0)).is_none());
}

#[test]
fn fixed_tokens_span_their_text() {
    let t = Token::fixed(Lexeme::RightShiftEq, Position::new(0, 2));
    assert_eq!(t.as_span(), run(0, 2, 3));
    assert_eq!(Lexeme::Continue.text(), chars("continue"));
    assert!(!t.is_eof());
}

#[test]
fn spans_join_and_contain() {
    let a = Span::new(Position::new(1, 4), Position::new(1, 6));
    let b = Span::new(Position::new(0, 9), Position::new(1, 2));
    let j = a.join(&b);
    assert_eq!(j, Span::new(Position::new(0, 9), Position::new(1, 6)));
    assert!(j.contains(&a));
    assert!(j.contains(&b));
    assert!(!a.contains(&b));
}

#[test]
fn float_keeps_its_text() {
    match parsely_diagnostics::Float::from_span_start(&chars("2.50"), Position::new(3, 7)) {
        Token::Float(f) => {
            assert_eq!(f.text, "2.50");
            assert_eq!(f.span, run(3, 7, 4));
        }
        _ => panic!("not a float"),
    }
}
