use vstd::prelude::*;
use crate::position::{Position, Span, pos_lt};
use crate::tokens::{Token, token_start};

verus! {

/// The source lines `from` to `to`, both included, joined by line breaks.
pub open spec fn joined_lines(lines: Seq<Seq<char>>, from: int, to: int) -> Seq<char>
    decreases to - from,
{
    if to <= from {
        lines[from]
    } else {
        joined_lines(lines, from, to - 1) + seq!['\n'] + lines[to]
    }
}

/// The text of the lines that `span` touches, whole, or `None` where they are not
/// all in the source.
pub open spec fn slice_lines(lines: Seq<Seq<char>>, span: Span) -> Option<Seq<char>> {
    if span.start.line <= span.end.line && span.end.line < lines.len() {
        Some(joined_lines(lines, span.start.line as int, span.end.line as int))
    } else {
        None
    }
}

/// A token stream as the renderers need it: ordered by start position with no
/// position twice, and closed by exactly one end-of-input token.
pub open spec fn tokens_wf(toks: Seq<Token>) -> bool {
    &&& 0 < toks.len() <= usize::MAX
    &&& toks.last() is Eof
    &&& forall|i: int| 0 <= i < toks.len() - 1 ==> !(#[trigger] toks[i] is Eof)
    &&& forall|i: int, j: int|
        0 <= i < j < toks.len() ==> pos_lt(#[trigger] token_start(toks[i]), #[trigger] token_start(toks[j]))
}

proof fn lemma_sorted_from_adjacent(toks: Seq<Token>, n: int)
    requires
        0 <= n <= toks.len(),
        forall|k: int| 0 <= k < n - 1 ==> pos_lt(#[trigger] token_start(toks[k]), token_start(toks[k + 1])),
    ensures
        forall|i: int, j: int| 0 <= i < j < n ==> pos_lt(#[trigger] token_start(toks[i]), #[trigger] token_start(toks[j])),
    decreases n,
{
    if n > 0 {
        lemma_sorted_from_adjacent(toks, n - 1);
        assert forall|i: int, j: int| 0 <= i < j < n implies pos_lt(#[trigger] token_start(toks[i]), #[trigger] token_start(toks[j])) by {
            if j == n - 1 && i < n - 2 {
                assert(pos_lt(token_start(toks[i]), token_start(toks[n - 2])));
                assert(pos_lt(token_start(toks[n - 2]), token_start(toks[n - 1])));
            }
        }
    }
}

/// Whether `toks` is a token stream that the renderers accept (see `tokens_wf`).
pub fn check_tokens(toks: &[Token]) -> (r: bool)
    ensures
        r == tokens_wf(toks@),
{
    let n = toks.len();
    if n == 0 || !toks[n - 1].is_eof() {
        return false;
    }
    let mut i: usize = 0;
    while i < n - 1
        invariant
            n == toks@.len(),
            0 < n,
            i <= n - 1,
            forall|k: int| 0 <= k < i ==> !(#[trigger] toks@[k] is Eof),
            forall|k: int| 0 <= k < i ==> pos_lt(#[trigger] token_start(toks@[k]), token_start(toks@[k + 1])),
        decreases n - 1 - i,
    {
        if toks[i].is_eof() {
            return false;
        }
        let a = toks[i].as_span().start;
        let b = toks[i + 1].as_span().start;
        if !(a.line < b.line || (a.line == b.line && a.column < b.column)) {
            assert(!pos_lt(token_start(toks@[i as int]), token_start(toks@[i + 1])));
            return false;
        }
        i = i + 1;
    }
    proof {
        lemma_sorted_from_adjacent(toks@, n as int);
    }
    true
}

/// One source file under compilation: its path, its tokens and its text.
pub trait Program {
    spec fn spec_path(&self) -> Seq<char>;

    spec fn spec_tokens(&self) -> Seq<Token>;

    /// The source text, line by line, without the line breaks.
    spec fn spec_lines(&self) -> Seq<Seq<char>>;

    fn path(&self) -> (r: &str)
        ensures
            r@ == self.spec_path(),
    ;

    fn tokens(&self) -> (r: &[Token])
        ensures
            r@ == self.spec_tokens(),
    ;

    /// The whole lines that `span` touches.
    fn slice(&self, span: &Span) -> (r: Option<String>)
        ensures
            r is None <==> slice_lines(self.spec_lines(), *span) is None,
            r is Some ==> r->0@ == slice_lines(self.spec_lines(), *span)->0,
    ;
}

/// A program held in memory: a path, the lines of its text and its tokens.
pub struct SourceFile {
    pub path: String,
    pub lines: Vec<String>,
    pub tokens: Vec<Token>,
}

impl Program for SourceFile {
    open spec fn spec_path(&self) -> Seq<char> {
        self.path@
    }

    open spec fn spec_tokens(&self) -> Seq<Token> {
        self.tokens@
    }

    open spec fn spec_lines(&self) -> Seq<Seq<char>> {
        self.lines@.map_values(|l: String| l@)
    }

    fn path(&self) -> (r: &str) {
        self.path.as_str()
    }

    fn tokens(&self) -> (r: &[Token]) {
        self.tokens.as_slice()
    }

    fn slice(&self, span: &Span) -> (r: Option<String>) {
        if span.start.line > span.end.line || span.end.line >= self.lines.len() {
            return None;
        }
        let ghost lines = self.spec_lines();
        let mut text = self.lines[span.start.line].clone();
        let mut n: usize = span.start.line;
        while n < span.end.line
            invariant
                span.start.line <= n <= span.end.line < self.lines.len(),
                lines == self.spec_lines(),
                text@ == joined_lines(lines, span.start.line as int, n as int),
            decreases span.end.line - n,
        {
            n = n + 1;
            text.append("\n");
            text.append(self.lines[n].as_str());
            proof {
                reveal_strlit("\n");
            }
            assert(text@ == joined_lines(lines, span.start.line as int, n as int));
        }
        Some(text)
    }
}

} // verus!
