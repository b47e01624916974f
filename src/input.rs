use vstd::prelude::*;
use crate::fen::{parse_placement, placement_of};
use crate::piece::{Occupant, PieceKind, Side};
use crate::rules::{
    Move, apply_move, fen_after, fits_move_generator, is_legal_in, legal_moves, legal_moves_of,
    within_piece_limit,
};

verus! {

/// The square of board coordinates: `file` 1 to 8 from a to h, `rank` 1 to 8.
pub open spec fn square_at(file: int, rank: int) -> int {
    (rank - 1) * 8 + (file - 1)
}

/// Turns board coordinates into a square number; `None` off the board.
pub fn coords_to_square(file: i8, rank: i8) -> (r: Option<u8>)
    ensures
        (1 <= file <= 8 && 1 <= rank <= 8) ==> r == Some(square_at(file as int, rank as int) as u8),
        !(1 <= file <= 8 && 1 <= rank <= 8) ==> r is None,
{
    if 1 <= file && file <= 8 && 1 <= rank && rank <= 8 {
        Some(((rank - 1) * 8 + (file - 1)) as u8)
    } else {
        None
    }
}

/// Where square `sq` (a1 = 0) stands in a layout, whose row 0 is rank eight.
pub open spec fn layout_index(sq: int) -> int {
    (7 - sq / 8) * 8 + sq % 8
}

/// The rank (0 = first) on which a side's pawns promote.
pub open spec fn far_rank(side: Side) -> int {
    if side == Side::White {
        7
    } else {
        0
    }
}

/// The promotion that a move from `from` to `to` carries: a queen when a
/// pawn reaches its far rank, none otherwise.
pub open spec fn inferred_promotion(layout: Seq<Option<Occupant>>, from: int, to: int) -> Option<PieceKind> {
    match layout[layout_index(from)] {
        Some(o) => if o.kind == PieceKind::Pawn && to / 8 == far_rank(o.side) {
            Some(PieceKind::Queen)
        } else {
            None
        },
        None => None,
    }
}

/// Builds the move from `from` to `to` on a layout, with a queen promotion
/// when a pawn reaches its far rank.
pub fn build_move(layout: &Vec<Option<Occupant>>, from: u8, to: u8) -> (m: Move)
    requires
        layout@.len() == 64,
        from < 64,
        to < 64,
    ensures
        m.from == from,
        m.to == to,
        m.promotion == inferred_promotion(layout@, from as int, to as int),
{
    let idx: usize = ((7 - from / 8) * 8 + from % 8) as usize;
    let promotion = match layout[idx] {
        Some(o) => {
            let far: u8 = if o.side == Side::White { 7 } else { 0 };
            if o.kind == PieceKind::Pawn && to / 8 == far {
                Some(PieceKind::Queen)
            } else {
                None
            }
        },
        None => None,
    };
    Move { from, to, promotion }
}

/// Asks the rules engine whether a move is legal in a position; false for a
/// position that the move generator may not be asked about.
pub fn is_legal(fen: &Vec<char>, m: Move) -> (r: bool)
    ensures
        r == (within_piece_limit(fen@) && is_legal_in(fen@, m)),
{
    if !fits_move_generator(fen) {
        return false;
    }
    let moves = match legal_moves(fen) {
        Some(v) => v,
        None => {
            return false;
        },
    };
    let mut i: usize = 0;
    while i < moves.len()
        invariant
            legal_moves_of(fen@) == Some(moves@),
            within_piece_limit(fen@),
            i <= moves@.len(),
            forall|j: int| 0 <= j < i ==> moves@[j] != m,
        decreases moves@.len() - i,
    {
        if moves[i] == m {
            assert(moves@[i as int] == m);
            assert(moves@.contains(m));
            return true;
        }
        i = i + 1;
    }
    false
}

/// A move half entered by the player: the origin square picked so far.
pub struct Gesture {
    pub pending_origin: Option<u8>,
    pub awaiting_destination: bool,
}

impl Gesture {
    pub open spec fn wf(&self) -> bool {
        &&& self.awaiting_destination <==> self.pending_origin is Some
        &&& self.pending_origin matches Some(s) ==> s < 64
    }

    /// No square picked.
    pub fn new() -> (g: Gesture)
        ensures
            g.wf(),
            !g.awaiting_destination,
    {
        Gesture { pending_origin: None, awaiting_destination: false }
    }

    /// Takes a square picked by the player. The first pick is the origin; the
    /// second builds the move and, when it is legal, returns the position that
    /// it leads to. Either way the second pick ends the gesture.
    pub fn select_square(&mut self, fen: &Vec<char>, square: u8) -> (r: Option<Vec<char>>)
        requires
            old(self).wf(),
            square < 64,
        ensures
            final(self).wf(),
            !old(self).awaiting_destination ==> r is None && final(self).pending_origin == Some(square),
            old(self).awaiting_destination ==> !final(self).awaiting_destination,
            old(self).awaiting_destination ==> (r matches Some(next) <==> (within_piece_limit(fen@) && (
            placement_of(fen@) matches Some(l) && is_legal_in(
                fen@,
                Move {
                    from: old(self).pending_origin->0,
                    to: square,
                    promotion: inferred_promotion(l, old(self).pending_origin->0 as int, square as int),
                },
            )))),
            old(self).awaiting_destination ==> (r matches Some(next) ==> (placement_of(fen@) matches Some(
                l,
            ) && next@ == fen_after(
                fen@,
                Move {
                    from: old(self).pending_origin->0,
                    to: square,
                    promotion: inferred_promotion(l, old(self).pending_origin->0 as int, square as int),
                },
            ))),
    {
        match self.pending_origin {
            None => {
                self.pending_origin = Some(square);
                self.awaiting_destination = true;
                None
            },
            Some(from) => {
                self.pending_origin = None;
                self.awaiting_destination = false;
                let layout = match parse_placement(fen) {
                    Some(l) => l,
                    None => {
                        return None;
                    },
                };
                let m = build_move(&layout, from, square);
                if is_legal(fen, m) {
                    Some(apply_move(fen, m))
                } else {
                    None
                }
            },
        }
    }
}

} // verus!
