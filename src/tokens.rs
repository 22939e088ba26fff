use vstd::prelude::*;
use crate::position::{Position, Span};
use crate::text::{parse_u64, parse_u64_spec, string_from_chars};

verus! {

/// The span of a token that starts at `start` and runs `len` characters along its line.
pub open spec fn run_span(start: Position, len: nat) -> Span {
    Span { start, end: Position { line: start.line, column: (start.column + len) as usize } }
}

fn make_run_span(start: Position, len: usize) -> (r: Span)
    requires
        start.column + len <= usize::MAX,
    ensures
        r == run_span(start, len as nat),
{
    Span { start, end: Position { line: start.line, column: start.column + len } }
}

/// An identifier.
#[derive(Clone, Debug, PartialEq, Eq)]
pub struct Ident {
    pub value: std::string::String,
    pub span: Span,
}

impl Ident {
    /// The identifier spelled by `raw`, starting at `start`.
    pub fn from_span_start(raw: &[char], start: Position) -> (r: Token)
        requires
            start.column + raw@.len() <= usize::MAX,
        ensures
            r matches Token::Ident(i) && i.value@ == raw@ && i.span == run_span(start, raw@.len()),
    {
        Token::Ident(Ident { value: string_from_chars(raw), span: make_run_span(start, raw.len()) })
    }
}

/// An unsigned integer literal.
#[derive(Clone, Debug, PartialEq, Eq)]
pub struct Int {
    pub value: u64,
    pub span: Span,
}

impl Int {
    /// The integer literal spelled by `raw`, starting at `start`; `None` where `raw`
    /// is not a decimal numeral that fits in 64 bits.
    pub fn from_span_start(raw: &[char], start: Position) -> (r: Option<Token>)
        requires
            start.column + raw@.len() <= usize::MAX,
        ensures
            r is None <==> parse_u64_spec(raw@) is None,
            r is Some ==> (r->0 matches Token::Int(i) && Some(i.value) == parse_u64_spec(raw@)
                && i.span == run_span(start, raw@.len())),
    {
        match parse_u64(raw) {
            Some(value) => Some(Token::Int(Int { value, span: make_run_span(start, raw.len()) })),
            None => None,
        }
    }
}

/// A floating-point literal, kept as the text it was written with.
#[derive(Clone, Debug, PartialEq, Eq)]
pub struct Float {
    pub text: std::string::String,
    pub span: Span,
}

impl Float {
    /// The floating-point literal spelled by `raw`, starting at `start`, kept as written.
    pub fn from_span_start(raw: &[char], start: Position) -> (r: Token)
        requires
            start.column + raw@.len() <= usize::MAX,
        ensures
            r matches Token::Float(f) && f.text@ == raw@ && f.span == run_span(start, raw@.len()),
    {
        Token::Float(Float { text: string_from_chars(raw), span: make_run_span(start, raw.len()) })
    }
}

/// A boolean literal.
#[derive(Clone, Debug, PartialEq, Eq)]
pub struct Bool {
    pub value: bool,
    pub span: Span,
}

/// The text `true`.
pub open spec fn true_text() -> Seq<char> {
    seq!['t', 'r', 'u', 'e']
}

/// The text `false`.
pub open spec fn false_text() -> Seq<char> {
    seq!['f', 'a', 'l', 's', 'e']
}

impl Bool {
    /// The boolean literal `value`, written as `raw` at `start`.
    pub fn from_value(value: bool, raw: &[char], start: Position) -> (r: Token)
        requires
            start.column + raw@.len() <= usize::MAX,
        ensures
            r matches Token::Bool(b) && b.value == value && b.span == run_span(start, raw@.len()),
    {
        Token::Bool(Bool { value, span: make_run_span(start, raw.len()) })
    }

    /// The boolean literal spelled by `raw`; `None` unless `raw` is `true` or `false`.
    pub fn from_span_start(raw: &str, start: Position) -> (r: Option<Token>)
        requires
            start.column + raw@.len() <= usize::MAX,
        ensures
            r is None <==> (raw@ != true_text() && raw@ != false_text()),
            r is Some ==> (r->0 matches Token::Bool(b) && b.value == (raw@ == true_text())
                && b.span == run_span(start, raw@.len())),
    {
        let n = raw.unicode_len();
        let value = if n == 4 && raw.get_char(0) == 't' && raw.get_char(1) == 'r'
            && raw.get_char(2) == 'u' && raw.get_char(3) == 'e' {
            assert(raw@ == true_text());
            true
        } else if n == 5 && raw.get_char(0) == 'f' && raw.get_char(1) == 'a'
            && raw.get_char(2) == 'l' && raw.get_char(3) == 's' && raw.get_char(4) == 'e' {
            assert(raw@ == false_text());
            false
        } else {
            return None;
        };
        Some(Token::Bool(Bool { value, span: make_run_span(start, n) }))
    }
}

/// A string literal; `value` holds what stands between the quotes.
#[derive(Clone, Debug, PartialEq, Eq)]
pub struct String {
    pub value: std::string::String,
    pub span: Span,
}

impl String {
    /// The string literal written as `raw`, quotes included; `None` where `raw` is too
    /// short to hold both quotes.
    pub fn from_span_start(raw: &str, start: Position) -> (r: Option<Token>)
        requires
            start.column + raw@.len() <= usize::MAX,
        ensures
            r is None <==> raw@.len() < 2,
            r is Some ==> (r->0 matches Token::String(s) && s.value@ == raw@.subrange(1, raw@.len() - 1)
                && s.span == run_span(start, raw@.len())),
    {
        let n = raw.unicode_len();
        if n < 2 {
            return None;
        }
        let inner = raw.substring_char(1, n - 1);
        Some(Token::String(String { value: inner.to_owned(), span: make_run_span(start, n) }))
    }
}

/// A character literal; `value` is the first character between the quotes.
#[derive(Clone, Debug, PartialEq, Eq)]
pub struct Char {
    pub value: char,
    pub span: Span,
}

impl Char {
    /// The character literal written as `raw`, quotes included; `None` where nothing
    /// stands between the quotes.
    pub fn from_span_start(raw: &str, start: Position) -> (r: Option<Token>)
        requires
            start.column + raw@.len() <= usize::MAX,
        ensures
            r is None <==> raw@.len() < 3,
            r is Some ==> (r->0 matches Token::Char(c) && c.value == raw@[1]
                && c.span == run_span(start, raw@.len())),
    {
        let n = raw.unicode_len();
        if n < 3 {
            return None;
        }
        Some(Token::Char(Char { value: raw.get_char(1), span: make_run_span(start, n) }))
    }
}

/// The keywords, punctuation and operators: tokens whose text is fixed.
#[derive(Clone, Copy, Debug, PartialEq, Eq, Structural, Hash)]
pub enum Lexeme {
    Const,
    Continue,
    Break,
    Else,
    Enum,
    Export,
    External,
    For,
    If,
    Match,
    Nones,
    Persist,
    Return,
    Struct,
    Typedef,
    Typeof,
    Void,
    While,
    Semi,
    Colon,
    Comma,
    Quote,
    Pound,
    SingleQuote,
    OpenBrace,
    CloseBrace,
    OpenBracket,
    CloseBracket,
    OpenParen,
    CloseParen,
    And,
    AndEq,
    Assign,
    Eq,
    Dot,
    Gt,
    GtEq,
    LeftShift,
    LeftShiftEq,
    LogicalAnd,
    LogicalOr,
    Lt,
    LtEq,
    Minus,
    MinusEq,
    Not,
    NotEq,
    Or,
    Plus,
    PlusEq,
    Rem,
    RemEq,
    RightShift,
    RightShiftEq,
    Slash,
    SlashEq,
    Star,
    StarEq,
    Xor,
    XorEq,
}

/// The text of a fixed token as it stands in the source.
pub open spec fn lexeme_text(l: Lexeme) -> Seq<char> {
    match l {
        Lexeme::Const => seq!['c', 'o', 'n', 's', 't'],
        Lexeme::Continue => seq!['c', 'o', 'n', 't', 'i', 'n', 'u', 'e'],
        Lexeme::Break => seq!['b', 'r', 'e', 'a', 'k'],
        Lexeme::Else => seq!['e', 'l', 's', 'e'],
        Lexeme::Enum => seq!['e', 'n', 'u', 'm'],
        Lexeme::Export => seq!['e', 'x', 'p', 'o', 'r', 't'],
        Lexeme::External => seq!['e', 'x', 't', 'e', 'r', 'n', 'a', 'l'],
        Lexeme::For => seq!['f', 'o', 'r'],
        Lexeme::If => seq!['i', 'f'],
        Lexeme::Match => seq!['m', 'a', 't', 'c', 'h'],
        Lexeme::Nones => seq!['n', 'o', 'n', 'e'],
        Lexeme::Persist => seq!['p', 'e', 'r', 's', 'i', 's', 't'],
        Lexeme::Return => seq!['r', 'e', 't', 'u', 'r', 'n'],
        Lexeme::Struct => seq!['s', 't', 'r', 'u', 'c', 't'],
        Lexeme::Typedef => seq!['t', 'y', 'p', 'e', 'd', 'e', 'f'],
        Lexeme::Typeof => seq!['t', 'y', 'p', 'e', 'o', 'f'],
        Lexeme::Void => seq!['v', 'o', 'i', 'd'],
        Lexeme::While => seq!['w', 'h', 'i', 'l', 'e'],
        Lexeme::Semi => seq![';'],
        Lexeme::Colon => seq![':'],
        Lexeme::Comma => seq![','],
        Lexeme::Quote => seq!['"'],
        Lexeme::Pound => seq!['#'],
        Lexeme::SingleQuote => seq!['\''],
        Lexeme::OpenBrace => seq!['{'],
        Lexeme::CloseBrace => seq!['}'],
        Lexeme::OpenBracket => seq!['['],
        Lexeme::CloseBracket => seq![']'],
        Lexeme::OpenParen => seq!['('],
        Lexeme::CloseParen => seq![')'],
        Lexeme::And => seq!['&'],
        Lexeme::AndEq => seq!['&', '='],
        Lexeme::Assign => seq!['='],
        Lexeme::Eq => seq!['=', '='],
        Lexeme::Dot => seq!['.'],
        Lexeme::Gt => seq!['>'],
        Lexeme::GtEq => seq!['>', '='],
        Lexeme::LeftShift => seq!['<', '<'],
        Lexeme::LeftShiftEq => seq!['<', '<', '='],
        Lexeme::LogicalAnd => seq!['&', '&'],
        Lexeme::LogicalOr => seq!['|', '|'],
        Lexeme::Lt => seq!['<'],
        Lexeme::LtEq => seq!['<', '='],
        Lexeme::Minus => seq!['-'],
        Lexeme::MinusEq => seq!['-', '='],
        Lexeme::Not => seq!['!'],
        Lexeme::NotEq => seq!['!', '='],
        Lexeme::Or => seq!['|'],
        Lexeme::Plus => seq!['+'],
        Lexeme::PlusEq => seq!['+', '='],
        Lexeme::Rem => seq!['%'],
        Lexeme::RemEq => seq!['%', '='],
        Lexeme::RightShift => seq!['>', '>'],
        Lexeme::RightShiftEq => seq!['>', '>', '='],
        Lexeme::Slash => seq!['/'],
        Lexeme::SlashEq => seq!['/', '='],
        Lexeme::Star => seq!['*'],
        Lexeme::StarEq => seq!['*', '='],
        Lexeme::Xor => seq!['^'],
        Lexeme::XorEq => seq!['^', '='],
    }
}

impl Lexeme {
    /// The text of this token as it stands in the source.
    pub fn text(&self) -> (r: Vec<char>)
        ensures
            r@ == lexeme_text(*self),
    {
        match self {
            Lexeme::Const => vec!['c', 'o', 'n', 's', 't'],
            Lexeme::Continue => vec!['c', 'o', 'n', 't', 'i', 'n', 'u', 'e'],
            Lexeme::Break => vec!['b', 'r', 'e', 'a', 'k'],
            Lexeme::Else => vec!['e', 'l', 's', 'e'],
            Lexeme::Enum => vec!['e', 'n', 'u', 'm'],
            Lexeme::Export => vec!['e', 'x', 'p', 'o', 'r', 't'],
            Lexeme::External => vec!['e', 'x', 't', 'e', 'r', 'n', 'a', 'l'],
            Lexeme::For => vec!['f', 'o', 'r'],
            Lexeme::If => vec!['i', 'f'],
            Lexeme::Match => vec!['m', 'a', 't', 'c', 'h'],
            Lexeme::Nones => vec!['n', 'o', 'n', 'e'],
            Lexeme::Persist => vec!['p', 'e', 'r', 's', 'i', 's', 't'],
            Lexeme::Return => vec!['r', 'e', 't', 'u', 'r', 'n'],
            Lexeme::Struct => vec!['s', 't', 'r', 'u', 'c', 't'],
            Lexeme::Typedef => vec!['t', 'y', 'p', 'e', 'd', 'e', 'f'],
            Lexeme::Typeof => vec!['t', 'y', 'p', 'e', 'o', 'f'],
            Lexeme::Void => vec!['v', 'o', 'i', 'd'],
            Lexeme::While => vec!['w', 'h', 'i', 'l', 'e'],
            Lexeme::Semi => vec![';'],
            Lexeme::Colon => vec![':'],
            Lexeme::Comma => vec![','],
            Lexeme::Quote => vec!['"'],
            Lexeme::Pound => vec!['#'],
            Lexeme::SingleQuote => vec!['\''],
            Lexeme::OpenBrace => vec!['{'],
            Lexeme::CloseBrace => vec!['}'],
            Lexeme::OpenBracket => vec!['['],
            Lexeme::CloseBracket => vec![']'],
            Lexeme::OpenParen => vec!['('],
            Lexeme::CloseParen => vec![')'],
            Lexeme::And => vec!['&'],
            Lexeme::AndEq => vec!['&', '='],
            Lexeme::Assign => vec!['='],
            Lexeme::Eq => vec!['=', '='],
            Lexeme::Dot => vec!['.'],
            Lexeme::Gt => vec!['>'],
            Lexeme::GtEq => vec!['>', '='],
            Lexeme::LeftShift => vec!['<', '<'],
            Lexeme::LeftShiftEq => vec!['<', '<', '='],
            Lexeme::LogicalAnd => vec!['&', '&'],
            Lexeme::LogicalOr => vec!['|', '|'],
            Lexeme::Lt => vec!['<'],
            Lexeme::LtEq => vec!['<', '='],
            Lexeme::Minus => vec!['-'],
            Lexeme::MinusEq => vec!['-', '='],
            Lexeme::Not => vec!['!'],
            Lexeme::NotEq => vec!['!', '='],
            Lexeme::Or => vec!['|'],
            Lexeme::Plus => vec!['+'],
            Lexeme::PlusEq => vec!['+', '='],
            Lexeme::Rem => vec!['%'],
            Lexeme::RemEq => vec!['%', '='],
            Lexeme::RightShift => vec!['>', '>'],
            Lexeme::RightShiftEq => vec!['>', '>', '='],
            Lexeme::Slash => vec!['/'],
            Lexeme::SlashEq => vec!['/', '='],
            Lexeme::Star => vec!['*'],
            Lexeme::StarEq => vec!['*', '='],
            Lexeme::Xor => vec!['^'],
            Lexeme::XorEq => vec!['^', '='],
        }
    }
}

/// A lexical unit of the source, each with the span it covers.
#[derive(Clone, Debug, PartialEq, Eq)]
pub enum Token {
    Ident(Ident),
    Int(Int),
    Float(Float),
    Bool(Bool),
    String(String),
    Char(Char),
    /// A keyword, punctuation mark or operator.
    Fixed(Lexeme, Span),
    /// The end of the input.
    Eof(Span),
}

/// The span that a token covers.
pub open spec fn token_span(t: Token) -> Span {
    match t {
        Token::Ident(i) => i.span,
        Token::Int(i) => i.span,
        Token::Float(f) => f.span,
        Token::Bool(b) => b.span,
        Token::String(s) => s.span,
        Token::Char(c) => c.span,
        Token::Fixed(_, s) => s,
        Token::Eof(s) => s,
    }
}

/// Where a token starts.
pub open spec fn token_start(t: Token) -> Position {
    token_span(t).start
}

impl Token {
    /// The fixed token `lexeme` starting at `start`.
    pub fn fixed(lexeme: Lexeme, start: Position) -> (r: Token)
        requires
            start.column + lexeme_text(lexeme).len() <= usize::MAX,
        ensures
            r == Token::Fixed(lexeme, run_span(start, lexeme_text(lexeme).len())),
    {
        let n = lexeme.text().len();
        Token::Fixed(lexeme, make_run_span(start, n))
    }

    /// The span this token covers.
    pub fn as_span(&self) -> (r: Span)
        ensures
            r == token_span(*self),
    {
        match self {
            Token::Ident(i) => i.span,
            Token::Int(i) => i.span,
            Token::Float(f) => f.span,
            Token::Bool(b) => b.span,
            Token::String(s) => s.span,
            Token::Char(c) => c.span,
            Token::Fixed(_, s) => *s,
            Token::Eof(s) => *s,
        }
    }

    /// Whether this token marks the end of the input.
    pub fn is_eof(&self) -> (r: bool)
        ensures
            r == (*self is Eof),
    {
        match self {
            Token::Eof(_) => true,
            _ => false,
        }
    }
}

} // verus!
