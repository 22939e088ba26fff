use vstd::prelude::*;
use std::collections::HashMap;
use crate::position::{Position, Range, pos_lt};
use crate::program::{Program, tokens_wf};
use crate::tokens::{Token, token_start};

verus! {

broadcast use vstd::std_specs::hash::group_hash_axioms;

/// The line on which a token starts.
pub open spec fn token_line(t: Token) -> usize {
    token_start(t).line
}

/// The first index from `i` on whose token starts on `line`, or the stream's length.
pub open spec fn first_on_line(toks: Seq<Token>, line: usize, i: int) -> int
    decreases toks.len() - i,
{
    if i >= toks.len() || i < 0 {
        toks.len() as int
    } else if token_line(toks[i]) == line {
        i
    } else {
        first_on_line(toks, line, i + 1)
    }
}

/// Where the run of tokens on `line` that goes on from index `j` ends: at the first
/// token that starts on another line and is not the end of input.
pub open spec fn run_end(toks: Seq<Token>, line: usize, j: int) -> int
    decreases toks.len() - j,
{
    if j >= toks.len() || j < 0 {
        toks.len() as int
    } else if !(toks[j] is Eof) && token_line(toks[j]) != line {
        j
    } else {
        run_end(toks, line, j + 1)
    }
}

/// The indices of the tokens that start on `line`, with the end of input where it
/// follows them; `None` where no token starts on `line`.
pub open spec fn line_range(toks: Seq<Token>, line: usize) -> Option<Range> {
    let s = first_on_line(toks, line, 0);
    if s >= toks.len() {
        None
    } else {
        Some(Range { start: s as usize, end: run_end(toks, line, s) as usize })
    }
}

/// `r` is what a token lookup of `pos` owes: the index of the token that starts
/// there, or `None` where no token does.
pub open spec fn is_token_at(toks: Seq<Token>, pos: Position, r: Option<usize>) -> bool {
    match r {
        Some(i) => i < toks.len() && token_start(toks[i as int]) == pos,
        None => forall|i: int| 0 <= i < toks.len() ==> token_start(#[trigger] toks[i]) != pos,
    }
}

/// Lines never fall along a well-formed stream.
pub proof fn lemma_lines_ordered(toks: Seq<Token>, i: int, j: int)
    requires
        tokens_wf(toks),
        0 <= i <= j < toks.len(),
    ensures
        token_line(toks[i]) <= token_line(toks[j]),
{
    if i < j {
        assert(pos_lt(token_start(toks[i]), token_start(toks[j])));
    }
}

proof fn lemma_first_on_line_is(toks: Seq<Token>, line: usize, k: int, j: int)
    requires
        0 <= k <= j < toks.len(),
        token_line(toks[j]) == line,
        forall|i: int| k <= i < j ==> token_line(#[trigger] toks[i]) != line,
    ensures
        first_on_line(toks, line, k) == j,
    decreases j - k,
{
    if k < j {
        lemma_first_on_line_is(toks, line, k + 1, j);
    }
}

proof fn lemma_first_on_line_absent(toks: Seq<Token>, line: usize, k: int)
    requires
        0 <= k <= toks.len(),
        forall|i: int| k <= i < toks.len() ==> token_line(#[trigger] toks[i]) != line,
    ensures
        first_on_line(toks, line, k) == toks.len(),
    decreases toks.len() - k,
{
    if k < toks.len() {
        lemma_first_on_line_absent(toks, line, k + 1);
    }
}

proof fn lemma_first_on_line_before(toks: Seq<Token>, line: usize, k: int, j: int)
    requires
        0 <= k <= j < toks.len(),
        token_line(toks[j]) == line,
    ensures
        k <= first_on_line(toks, line, k) <= j,
        token_line(toks[first_on_line(toks, line, k)]) == line,
    decreases j - k,
{
    if k < j && token_line(toks[k]) != line {
        lemma_first_on_line_before(toks, line, k + 1, j);
    }
}

proof fn lemma_first_on_line_bounds(toks: Seq<Token>, line: usize, k: int)
    requires
        0 <= k <= toks.len(),
    ensures
        k <= first_on_line(toks, line, k) <= toks.len(),
    decreases toks.len() - k,
{
    if k < toks.len() {
        lemma_first_on_line_bounds(toks, line, k + 1);
    }
}

proof fn lemma_run_covers(toks: Seq<Token>, line: usize, j: int, k: int)
    requires
        0 <= j <= k < toks.len(),
        forall|m: int| j <= m <= k ==> token_line(#[trigger] toks[m]) == line,
    ensures
        run_end(toks, line, j) > k,
    decreases k - j,
{
    if j < k {
        lemma_run_covers(toks, line, j + 1, k);
    } else {
        lemma_run_end_bounds(toks, line, j + 1);
    }
}

proof fn lemma_run_end_bounds(toks: Seq<Token>, line: usize, j: int)
    requires
        0 <= j <= toks.len(),
    ensures
        j <= run_end(toks, line, j) <= toks.len(),
    decreases toks.len() - j,
{
    if j < toks.len() {
        lemma_run_end_bounds(toks, line, j + 1);
    }
}

/// Every token that starts on `line` lies in the range that `line_range` gives.
pub proof fn lemma_line_range_holds_line(toks: Seq<Token>, line: usize, k: int)
    requires
        tokens_wf(toks),
        0 <= k < toks.len(),
        token_line(toks[k]) == line,
    ensures
        line_range(toks, line) is Some,
        line_range(toks, line)->0.start <= k < line_range(toks, line)->0.end <= toks.len(),
{
    lemma_first_on_line_before(toks, line, 0, k);
    let s = first_on_line(toks, line, 0);
    assert forall|m: int| s <= m <= k implies token_line(#[trigger] toks[m]) == line by {
        lemma_lines_ordered(toks, s, m);
        lemma_lines_ordered(toks, m, k);
    }
    lemma_run_covers(toks, line, s, k);
    lemma_run_end_bounds(toks, line, s);
}

/// Two lookups of one line in one stream give one range.
pub proof fn lemma_line_range_stable(toks: Seq<Token>, line: usize, first: Option<Range>, second: Option<Range>)
    requires
        first == line_range(toks, line),
        second == line_range(toks, line),
    ensures
        first == second,
{
}

/// A token lookup never names a wrong token: in a well-formed stream the index it
/// returns is that of the one token starting at the position, and it returns none
/// exactly when no token starts there.
pub proof fn lemma_token_lookup_exact(toks: Seq<Token>, pos: Position, r: Option<usize>, i: int)
    requires
        tokens_wf(toks),
        is_token_at(toks, pos, r),
        0 <= i < toks.len(),
    ensures
        (r == Some(i as usize)) <==> token_start(toks[i]) == pos,
{
    if let Some(j) = r {
        if token_start(toks[i]) == pos && i != j {
            if i < j {
                assert(pos_lt(token_start(toks[i]), token_start(toks[j as int])));
            } else {
                assert(pos_lt(token_start(toks[j as int]), token_start(toks[i])));
            }
        }
    }
}

/// A memo of token lookups over the token stream of one program.
pub struct TokenCache {
    positions: HashMap<usize, HashMap<usize, usize>>,
    lines: HashMap<usize, Range>,
    tokens: Ghost<Seq<Token>>,
}

impl TokenCache {
    /// The token stream this cache indexes.
    pub closed spec fn tokens(&self) -> Seq<Token> {
        self.tokens@
    }

    /// Every remembered answer is the true one for the stream.
    pub closed spec fn wf(&self) -> bool {
        &&& forall|l: usize| #[trigger] self.lines@.contains_key(l)
            ==> line_range(self.tokens@, l) == Some(self.lines@[l])
        &&& forall|l: usize, c: usize|
            #[trigger] self.positions@.contains_key(l) && #[trigger] self.positions@[l]@.contains_key(c)
            ==> {
                let i = self.positions@[l]@[c];
                &&& i < self.tokens@.len()
                &&& token_start(self.tokens@[i as int]) == (Position { line: l, column: c })
            }
    }

    /// An empty cache for the tokens of `program`.
    pub fn new<P: Program>(program: &P) -> (r: TokenCache)
        ensures
            r.wf(),
            r.tokens() == program.spec_tokens(),
    {
        TokenCache {
            positions: HashMap::new(),
            lines: HashMap::new(),
            tokens: Ghost(program.spec_tokens()),
        }
    }

    fn remember(&mut self, pos: Position, index: usize)
        requires
            old(self).wf(),
            index < old(self).tokens().len(),
            token_start(old(self).tokens()[index as int]) == pos,
        ensures
            final(self).wf(),
            final(self).tokens() == old(self).tokens(),
    {
        let mut inner = match self.positions.remove(&pos.line) {
            Some(m) => m,
            None => HashMap::new(),
        };
        inner.insert(pos.column, index);
        self.positions.insert(pos.line, inner);
        assert forall|l: usize, c: usize|
            #[trigger] self.positions@.contains_key(l) && #[trigger] self.positions@[l]@.contains_key(c)
            implies ({
                let i = self.positions@[l]@[c];
                &&& i < self.tokens@.len()
                &&& token_start(self.tokens@[i as int]) == (Position { line: l, column: c })
            }) by {
            if l == pos.line && c != pos.column {
                assert(old(self).positions@.contains_key(l));
                assert(old(self).positions@[l]@.contains_key(c));
            } else if l != pos.line {
                assert(old(self).positions@.contains_key(l));
            }
        }
    }

    /// The range of indices of the tokens on `line`, followed by the end of input
    /// where it comes next; `None` where no token starts on `line`.
    pub fn line_index<P: Program>(&mut self, program: &P, line: usize) -> (r: Option<Range>)
        requires
            old(self).wf(),
            old(self).tokens() == program.spec_tokens(),
            tokens_wf(program.spec_tokens()),
        ensures
            final(self).wf(),
            final(self).tokens() == old(self).tokens(),
            r == line_range(program.spec_tokens(), line),
    {
        if let Some(range) = self.lines.get(&line) {
            return Some(*range);
        }
        let toks = program.tokens();
        let ghost t = toks@;
        // Search for any one token on the line.
        let mut lo: usize = 0;
        let mut hi: usize = toks.len();
        let mut anchor: Option<usize> = None;
        while lo < hi && anchor.is_none()
            invariant
                t == toks@,
                tokens_wf(t),
                0 <= lo <= hi <= toks.len(),
                forall|i: int| 0 <= i < lo ==> token_line(#[trigger] t[i]) < line,
                forall|i: int| hi <= i < t.len() ==> token_line(#[trigger] t[i]) > line,
                anchor matches Some(a) ==> a < t.len() && token_line(t[a as int]) == line,
            decreases hi - lo + (if anchor is None { 1int } else { 0 }),
        {
            let mid = lo + (hi - lo) / 2;
            let l = toks[mid].as_span().start.line;
            if l == line {
                anchor = Some(mid);
            } else if l < line {
                proof {
                    assert forall|i: int| 0 <= i < mid + 1 implies token_line(#[trigger] t[i]) < line by {
                        lemma_lines_ordered(t, i, mid as int);
                    }
                }
                lo = mid + 1;
            } else {
                proof {
                    assert forall|i: int| mid <= i < t.len() implies token_line(#[trigger] t[i]) > line by {
                        lemma_lines_ordered(t, mid as int, i);
                    }
                }
                hi = mid;
            }
        }
        let a = match anchor {
            Some(a) => a,
            None => {
                proof {
                    lemma_first_on_line_absent(t, line, 0);
                }
                return None;
            },
        };
        // Widen backwards to the first token of the line.
        let mut start: usize = a;
        while start > 0 && toks[start - 1].as_span().start.line == line
            invariant
                t == toks@,
                tokens_wf(t),
                start <= a < t.len(),
                forall|i: int| start <= i <= a ==> token_line(#[trigger] t[i]) == line,
            decreases start,
        {
            start = start - 1;
        }
        proof {
            assert forall|i: int| 0 <= i < start implies token_line(#[trigger] t[i]) != line by {
                lemma_lines_ordered(t, i, start - 1);
                lemma_lines_ordered(t, start - 1, start as int);
            }
            lemma_first_on_line_is(t, line, 0, start as int);
        }
        // Widen forwards past the last token of the line.
        let mut end: usize = start;
        while end < toks.len() && (toks[end].is_eof() || toks[end].as_span().start.line == line)
            invariant
                t == toks@,
                start <= end <= t.len(),
                run_end(t, line, end as int) == run_end(t, line, start as int),
            decreases t.len() - end,
        {
            end = end + 1;
        }
        let range = Range { start, end };
        self.lines.insert(line, range);
        Some(range)
    }

    /// The index of the token that starts at `position`; `None` where none does.
    pub fn token_index<P: Program>(&mut self, program: &P, position: &Position) -> (r: Option<usize>)
        requires
            old(self).wf(),
            old(self).tokens() == program.spec_tokens(),
            tokens_wf(program.spec_tokens()),
        ensures
            final(self).wf(),
            final(self).tokens() == old(self).tokens(),
            is_token_at(program.spec_tokens(), *position, r),
    {
        if let Some(inner) = self.positions.get(&position.line) {
            if let Some(index) = inner.get(&position.column) {
                return Some(*index);
            }
        }
        let ghost t = program.spec_tokens();
        let range = match self.line_index(program, position.line) {
            Some(range) => range,
            None => {
                proof {
                    assert forall|i: int| 0 <= i < t.len() implies token_start(#[trigger] t[i]) != *position by {
                        if token_start(t[i]) == *position {
                            lemma_line_range_holds_line(t, position.line, i);
                        }
                    }
                }
                return None;
            },
        };
        proof {
            lemma_first_on_line_bounds(t, position.line, 0);
            lemma_run_end_bounds(t, position.line, range.start as int);
        }
        let toks = program.tokens();
        let mut i: usize = range.start;
        while i < range.end
            invariant
                t == toks@,
                t == program.spec_tokens(),
                old(self).tokens() == t,
                self.wf(),
                self.tokens() == t,
                Some(range) == line_range(t, position.line),
                range.start <= i <= range.end <= t.len(),
                forall|k: int| range.start <= k < i ==> token_start(#[trigger] t[k]) != *position,
            decreases range.end - i,
        {
            let start = toks[i].as_span().start;
            self.remember(start, i);
            if start == *position {
                return Some(i);
            }
            i = i + 1;
        }
        proof {
            assert forall|k: int| 0 <= k < t.len() implies token_start(#[trigger] t[k]) != *position by {
                if token_start(t[k]) == *position {
                    lemma_line_range_holds_line(t, position.line, k);
                }
            }
        }
        None
    }
}

} // verus!
