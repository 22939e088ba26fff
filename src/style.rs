use vstd::prelude::*;
use crate::text::string_from_chars;

verus! {

/// How a piece of output is to be shown on a terminal that has colours.
#[derive(Clone, Copy, Debug, PartialEq, Eq, Structural, Hash)]
pub enum Style {
    Plain,
    Bold,
    BoldCyan,
    BoldYellow,
    BoldRed,
    BoldGreen,
    BoldWhite,
}

/// A run of output text in one style.
#[derive(Clone, Debug)]
pub struct Piece {
    pub text: String,
    pub style: Style,
}

/// What a piece says: its characters and its style.
pub type PieceView = (Seq<char>, Style);

pub open spec fn piece_view(p: Piece) -> PieceView {
    (p.text@, p.style)
}

/// The characters and styles of a run of pieces.
pub open spec fn pieces_view(ps: Seq<Piece>) -> Seq<PieceView> {
    ps.map_values(|p: Piece| piece_view(p))
}

/// The text of a run of pieces with the styles left out.
pub open spec fn plain_text(ps: Seq<PieceView>) -> Seq<char>
    decreases ps.len(),
{
    if ps.len() == 0 {
        Seq::empty()
    } else {
        plain_text(ps.drop_last()) + ps.last().0
    }
}

/// `n` copies of `c`.
pub open spec fn repeat(c: char, n: nat) -> Seq<char> {
    Seq::new(n, |i: int| c)
}

/// `n` copies of `c`, as a string.
pub fn repeat_string(c: char, n: usize) -> (r: String)
    ensures
        r@ == repeat(c, n as nat),
{
    let mut v: Vec<char> = Vec::new();
    let mut i: usize = 0;
    while i < n
        invariant
            i <= n,
            v@ == repeat(c, i as nat),
        decreases n - i,
    {
        v.push(c);
        i = i + 1;
        assert(v@ =~= repeat(c, i as nat));
    }
    string_from_chars(v.as_slice())
}

/// Adds a piece to the end of `out`.
pub fn push_piece(out: &mut Vec<Piece>, text: String, style: Style)
    ensures
        pieces_view(final(out)@) == pieces_view(old(out)@).push((text@, style)),
{
    let ghost t = text@;
    out.push(Piece { text, style });
    assert(pieces_view(out@) =~= pieces_view(old(out)@).push((t, style)));
}

/// The text of `pieces` with the styles left out.
pub fn to_plain_text(pieces: &Vec<Piece>) -> (r: String)
    ensures
        r@ == plain_text(pieces_view(pieces@)),
{
    let mut r = String::new();
    let mut i: usize = 0;
    while i < pieces.len()
        invariant
            i <= pieces.len(),
            r@ == plain_text(pieces_view(pieces@.subrange(0, i as int))),
        decreases pieces.len() - i,
    {
        r.append(pieces[i].text.as_str());
        i = i + 1;
        assert(pieces_view(pieces@.subrange(0, i as int)).drop_last()
            =~= pieces_view(pieces@.subrange(0, i - 1)));
    }
    assert(pieces@.subrange(0, i as int) =~= pieces@);
    r
}

} // verus!
