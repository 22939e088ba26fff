use vstd::prelude::*;
use crate::position::{Span, empty_span};
use crate::tokens::{Ident, Token, token_span};

verus! {

/// `std::fmt::Error`, the failure of a formatter, carried by `Diagnostic::FormatError`.
#[verifier::external_type_specification]
#[verifier::external_body]
pub struct ExFmtError(std::fmt::Error);

/// Relies on `Clone` for `std::fmt::Error`, so that diagnostics can be cloned.
pub assume_specification[ <std::fmt::Error as std::clone::Clone>::clone ](e: &std::fmt::Error) -> std::fmt::Error;

/// Severity of a diagnostic, from least to most severe. `Internal` is never shown.
#[derive(Clone, Copy, Debug, Hash, PartialEq, Eq, Structural, PartialOrd, Ord)]
pub enum DiagnosticLevel {
    Internal,
    Info,
    Warning,
    Error,
}

/// A fault, warning or note found while compiling one file.
#[derive(Clone, Debug)]
pub enum Diagnostic {
    /// Error when formatting to buffer
    FormatError(std::fmt::Error),
    /// The provided symbol was not found in the symbol table
    SymbolNotFound(Ident),
    /// The type doesn't match the context
    IncompatibleType(Span),
    /// The two types don't match
    IncompatibleTypes(Span, Span),
    /// Encountered an unexpected token while parsing
    UnexpectedToken {
        /// The token that was found
        found: Token,
        /// What was expected, as text, so that tokens with values can be named
        expected: String,
    },
    /// No more input
    UnexpectedEnd(Span),
    /// Encountered an unexpected size (such as in int32 size)
    UnexpectedSize { span: Span, found: String },
    /// A fault in the package description, at the level the caller gives
    PackFile(String, DiagnosticLevel),
    /// A generic message
    Message(String, Span, DiagnosticLevel),
    /// The fault was reported already
    Caught(Span),
}

/// The severity of each kind of diagnostic.
pub open spec fn level_of(d: Diagnostic) -> DiagnosticLevel {
    match d {
        Diagnostic::PackFile(_, level) => level,
        Diagnostic::Message(_, _, level) => level,
        Diagnostic::Caught(_) => DiagnosticLevel::Internal,
        _ => DiagnosticLevel::Error,
    }
}

/// The place in the source that a diagnostic is about; the empty span for those
/// that have none.
pub open spec fn primary_span_of(d: Diagnostic) -> Span {
    match d {
        Diagnostic::FormatError(_) => empty_span(),
        Diagnostic::SymbolNotFound(ident) => ident.span,
        Diagnostic::IncompatibleType(span) => span,
        Diagnostic::IncompatibleTypes(span, _) => span,
        Diagnostic::UnexpectedToken { found, .. } => token_span(found),
        Diagnostic::UnexpectedSize { span, .. } => span,
        Diagnostic::UnexpectedEnd(span) => span,
        Diagnostic::PackFile(_, _) => empty_span(),
        Diagnostic::Message(_, span, _) => span,
        Diagnostic::Caught(span) => span,
    }
}

impl Diagnostic {
    /// How severe this diagnostic is.
    pub fn level(&self) -> (r: DiagnosticLevel)
        ensures
            r == level_of(*self),
    {
        match self {
            Diagnostic::FormatError(_) => DiagnosticLevel::Error,
            Diagnostic::SymbolNotFound(_) => DiagnosticLevel::Error,
            Diagnostic::IncompatibleType(_) => DiagnosticLevel::Error,
            Diagnostic::IncompatibleTypes(_, _) => DiagnosticLevel::Error,
            Diagnostic::UnexpectedToken { .. } => DiagnosticLevel::Error,
            Diagnostic::UnexpectedSize { .. } => DiagnosticLevel::Error,
            Diagnostic::UnexpectedEnd(_) => DiagnosticLevel::Error,
            Diagnostic::PackFile(_, level) => *level,
            Diagnostic::Message(_, _, level) => *level,
            Diagnostic::Caught(_) => DiagnosticLevel::Internal,
        }
    }

    /// Where in the source this diagnostic points.
    pub fn primary_span(&self) -> (r: Span)
        ensures
            r == primary_span_of(*self),
    {
        match self {
            Diagnostic::FormatError(_) => Span::empty(),
            Diagnostic::SymbolNotFound(ident) => ident.span,
            Diagnostic::IncompatibleType(span) => *span,
            Diagnostic::IncompatibleTypes(span, _) => *span,
            Diagnostic::UnexpectedToken { found, .. } => found.as_span(),
            Diagnostic::UnexpectedSize { span, .. } => *span,
            Diagnostic::UnexpectedEnd(span) => *span,
            Diagnostic::PackFile(_, _) => Span::empty(),
            Diagnostic::Message(_, span, _) => *span,
            Diagnostic::Caught(span) => *span,
        }
    }

    /// The marker that stands for this fault once it has been reported, at `span`.
    pub fn caught_span(&self, span: Span) -> (r: Diagnostic)
        ensures
            r == Diagnostic::Caught(span),
    {
        Diagnostic::Caught(span)
    }
}

impl From<std::fmt::Error> for Diagnostic {
    fn from(value: std::fmt::Error) -> (r: Diagnostic) {
        Diagnostic::FormatError(value)
    }
}

impl vstd::std_specs::convert::FromSpecImpl<std::fmt::Error> for Diagnostic {
    open spec fn obeys_from_spec() -> bool {
        true
    }

    open spec fn from_spec(v: std::fmt::Error) -> Diagnostic {
        Diagnostic::FormatError(v)
    }
}

/// Records a fault where it is found: pushes `d` onto `list`, unless `d` is the
/// marker of a fault already recorded, and returns the marker for `d`, at its span,
/// for the caller to pass on in its place.
pub fn report(list: &mut Vec<Diagnostic>, d: Diagnostic) -> (r: Diagnostic)
    ensures
        d is Caught ==> final(list)@ == old(list)@,
        !(d is Caught) ==> final(list)@ == old(list)@.push(d),
        r == Diagnostic::Caught(primary_span_of(d)),
{
    let span = d.primary_span();
    if let Diagnostic::Caught(_) = d {
        return d;
    }
    list.push(d);
    Diagnostic::Caught(span)
}

/// Equal diagnostics have equal levels and equal primary spans: both are functions
/// of the diagnostic's value alone.
pub proof fn lemma_classification_deterministic(a: Diagnostic, b: Diagnostic)
    requires
        a == b,
    ensures
        level_of(a) == level_of(b),
        primary_span_of(a) == primary_span_of(b),
{
}

/// A diagnostic that has a place in the source points at the span it carries (the
/// first of the two for a pair of mismatched types); the others point nowhere.
pub proof fn lemma_primary_span_is_carried(d: Diagnostic)
    ensures
        d matches Diagnostic::SymbolNotFound(i) ==> primary_span_of(d) == i.span,
        d matches Diagnostic::IncompatibleType(s) ==> primary_span_of(d) == s,
        d matches Diagnostic::IncompatibleTypes(s, _) ==> primary_span_of(d) == s,
        d matches Diagnostic::UnexpectedToken { found, .. } ==> primary_span_of(d) == token_span(found),
        d matches Diagnostic::UnexpectedEnd(s) ==> primary_span_of(d) == s,
        d matches Diagnostic::UnexpectedSize { span, .. } ==> primary_span_of(d) == span,
        d matches Diagnostic::Message(_, s, _) ==> primary_span_of(d) == s,
        d matches Diagnostic::Caught(s) ==> primary_span_of(d) == s,
        d is FormatError || d is PackFile ==> primary_span_of(d) == empty_span(),
{
}

} // verus!
