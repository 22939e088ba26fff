//! Diagnostics for a small compiler: the kinds of faults and notes it reports,
//! how severe each is and where it points, a memo of token lookups over one
//! token stream, and the renderers that turn diagnostics into text, either alone
//! or with excerpts of the source under carets.

pub mod cache;
pub mod diagnostic;
pub mod excerpt;
pub mod position;
pub mod program;
pub mod render;
pub mod style;
pub mod text;
pub mod tokens;

pub use cache::TokenCache;
pub use diagnostic::{report, Diagnostic, DiagnosticLevel};
pub use position::{Position, Range, Span};
pub use program::{check_tokens, Program, SourceFile};
pub use render::{DiagnosticFmt, DiagnosticModuleFmt};
pub use style::{to_plain_text, Piece, Style};
pub use tokens::{Bool, Char, Float, Ident, Int, Lexeme, Token};
