use vstd::prelude::*;

use crate::board::piece::Piece;
use crate::chess::color::Color;

verus! {

/// How one piece is shown to a player: its figurine and its color.
#[derive(Debug, Clone)]
pub struct PieceView {
    pub symbol: String,
    pub color: Color,
}

/// The messages that server and clients exchange.
#[derive(Debug)]
pub enum GameMessage {
    /// The server tells a client which side it plays.
    AssignColor(Color),
    /// A client asks to join a match.
    Join,
    /// A client asks to move a piece, in algebraic notation.
    MakeMove { source: String, target: String },
    /// Everything a client needs to draw the match.
    GameState {
        board: Vec<Vec<Option<PieceView>>>,
        turn_color: Color,
        is_check: bool,
        is_check_mate: bool,
        message: String,
        captured_by_white: Vec<PieceView>,
        captured_by_black: Vec<PieceView>,
    },
    WaitingForOpponent,
    GameEnd { winner: Option<Color> },
    Error(String),
}

pub open spec fn shows(v: PieceView, p: Piece) -> bool {
    &&& v.symbol@ == seq![p.symbol_spec()]
    &&& v.color == p.color()
}

pub open spec fn shows_cell(v: Option<PieceView>, c: Option<Piece>) -> bool {
    match (v, c) {
        (None, None) => true,
        (Some(v), Some(p)) => shows(v, p),
        _ => false,
    }
}

/// Each view shows the piece at the same place in the list.
pub open spec fn shows_all(vs: Seq<PieceView>, ps: Seq<Piece>) -> bool {
    &&& vs.len() == ps.len()
    &&& forall|k: int| 0 <= k < vs.len() ==> shows(#[trigger] vs[k], ps[k])
}

/// The pieces of `color` in a list, in their order.
pub open spec fn of_color(s: Seq<Piece>, color: Color) -> Seq<Piece>
    decreases s.len(),
{
    if s.len() == 0 {
        Seq::empty()
    } else {
        let rest = of_color(s.drop_last(), color);
        if s.last().color() == color {
            rest.push(s.last())
        } else {
            rest
        }
    }
}

impl PieceView {
    pub fn of(p: &Piece) -> (r: PieceView)
        ensures
            shows(r, *p),
    {
        PieceView { symbol: p.symbol_text(), color: p.color() }
    }
}

/// The views of the pieces of `color` in a list, in their order.
pub fn views_of_color(ps: &Vec<Piece>, color: Color) -> (r: Vec<PieceView>)
    ensures
        shows_all(r@, of_color(ps@, color)),
{
    let mut r: Vec<PieceView> = Vec::new();
    let mut i: usize = 0;
    while i < ps.len()
        invariant
            i <= ps@.len(),
            shows_all(r@, of_color(ps@.take(i as int), color)),
        decreases ps@.len() - i,
    {
        let ghost before = r@;
        let p = ps[i];
        proof {
            assert(ps@.take(i + 1).drop_last() =~= ps@.take(i as int));
        }
        if p.color() == color {
            r.push(PieceView::of(&p));
            assert forall|k: int| 0 <= k < r@.len() implies shows(
                #[trigger] r@[k],
                of_color(ps@.take(i + 1), color)[k],
            ) by {
                if k < before.len() {
                    assert(r@[k] == before[k]);
                }
            }
        }
        i = i + 1;
    }
    assert(ps@.take(ps@.len() as int) =~= ps@);
    r
}

} // verus!
