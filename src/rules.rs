use vstd::prelude::*;
use std::str::FromStr;
use crate::fen::{parse_placement, placement_of};
use crate::piece::{Occupant, PieceKind, Side};

verus! {

/// A move as the rules engine reports it. Squares are numbered from a1 = 0
/// along each rank up to h8 = 63 (`rank * 8 + file`).
#[derive(Clone, Copy, Debug, PartialEq, Eq, Structural)]
pub struct Move {
    pub from: u8,
    pub to: u8,
    pub promotion: Option<PieceKind>,
}

/// The legal moves of the position that a FEN text describes, in the order
/// in which the rules engine generates them; `None` where the text does not
/// describe a position that the engine accepts.
pub uninterp spec fn legal_moves_of(fen: Seq<char>) -> Option<Seq<Move>>;

/// The FEN text of the position reached by playing a legal move.
pub uninterp spec fn fen_after(fen: Seq<char>, m: Move) -> Seq<char>;

/// The side to move in the position that a FEN text describes; `None` where
/// the engine does not accept the text.
pub uninterp spec fn side_to_move_of(fen: Seq<char>) -> Option<Side>;

/// How many of the first `n` squares of a layout hold a piece of `side`.
pub open spec fn side_count(l: Seq<Option<Occupant>>, side: Side, n: int) -> int
    decreases n,
{
    if n <= 0 {
        0
    } else {
        side_count(l, side, n - 1) + if l[n - 1] matches Some(o) && o.side == side {
            1int
        } else {
            0
        }
    }
}

/// The rules engine's move generator keeps one slot per movable piece of the
/// side to move, with room for 18: it is only asked about positions whose
/// placement field reads as a layout with at most 16 pieces a side.
pub open spec fn within_piece_limit(fen: Seq<char>) -> bool {
    placement_of(fen) matches Some(l) && side_count(l, Side::White, 64) <= 16 && side_count(
        l,
        Side::Black,
        64,
    ) <= 16
}

/// Whether the position may be handed to the move generator.
pub fn fits_move_generator(fen: &Vec<char>) -> (r: bool)
    ensures
        r == within_piece_limit(fen@),
{
    let layout = match parse_placement(fen) {
        Some(l) => l,
        None => {
            return false;
        },
    };
    let mut white: u32 = 0;
    let mut black: u32 = 0;
    let mut sq: usize = 0;
    while sq < 64
        invariant
            layout@.len() == 64,
            sq <= 64,
            white == side_count(layout@, Side::White, sq as int),
            black == side_count(layout@, Side::Black, sq as int),
            white <= sq,
            black <= sq,
        decreases 64 - sq,
    {
        match layout[sq] {
            Some(o) => {
                if o.side == Side::White {
                    white = white + 1;
                } else {
                    black = black + 1;
                }
            },
            None => {},
        }
        sq = sq + 1;
    }
    white <= 16 && black <= 16
}

/// Where the first text's placement reads as a layout, so does the second's,
/// and neither side has more pieces in it.
pub open spec fn no_side_grows(before: Seq<char>, after: Seq<char>) -> bool {
    placement_of(before) matches Some(l) ==> (placement_of(after) matches Some(l2) && side_count(
        l2,
        Side::White,
        64,
    ) <= side_count(l, Side::White, 64) && side_count(l2, Side::Black, 64) <= side_count(
        l,
        Side::Black,
        64,
    ))
}

/// Whether `m` is among the legal moves of the position.
pub open spec fn is_legal_in(fen: Seq<char>, m: Move) -> bool {
    legal_moves_of(fen) matches Some(ms) && ms.contains(m)
}

/// The engine's number of a piece kind, pawn 0 up to king 5.
pub open spec fn kind_number(k: PieceKind) -> usize {
    match k {
        PieceKind::Pawn => 0,
        PieceKind::Knight => 1,
        PieceKind::Bishop => 2,
        PieceKind::Rook => 3,
        PieceKind::Queen => 4,
        PieceKind::King => 5,
    }
}

/// The engine's index of a piece kind.
pub fn kind_index(k: PieceKind) -> (r: usize)
    ensures
        r == kind_number(k),
{
    match k {
        PieceKind::Pawn => 0,
        PieceKind::Knight => 1,
        PieceKind::Bishop => 2,
        PieceKind::Rook => 3,
        PieceKind::Queen => 4,
        PieceKind::King => 5,
    }
}

/// The piece kind with the engine's index `i`.
pub fn kind_from_index(i: usize) -> (r: Option<PieceKind>)
    ensures
        i < 6 <==> r is Some,
        r matches Some(k) ==> i == kind_number(k),
{
    match i {
        0 => Some(PieceKind::Pawn),
        1 => Some(PieceKind::Knight),
        2 => Some(PieceKind::Bishop),
        3 => Some(PieceKind::Rook),
        4 => Some(PieceKind::Queen),
        5 => Some(PieceKind::King),
        _ => None,
    }
}

/// Relies on chess's `Board::from_str` and `MoveGen::new_legal`: the legal
/// moves of the position, which depend on the FEN text alone.
#[verifier::external_body]
pub(crate) fn legal_moves(fen: &Vec<char>) -> (r: Option<Vec<Move>>)
    requires
        within_piece_limit(fen@),
    ensures
        r matches Some(v) ==> legal_moves_of(fen@) == Some(v@),
        r is None ==> legal_moves_of(fen@) is None,
{
    let text: String = fen.iter().collect();
    let board = chess::Board::from_str(&text).ok()?;
    Some(chess::MoveGen::new_legal(&board).map(|m| Move {
        from: m.get_source().to_int(),
        to: m.get_dest().to_int(),
        promotion: m.get_promotion().and_then(|p| kind_from_index(p.to_index())),
    }).collect())
}

/// Relies on chess's `Board::from_str`, `Board::make_move_new` and the FEN
/// text that `Board` displays: the position after a legal move. A move
/// shifts one piece (two when castling), may remove a captured one and may
/// turn a pawn into another piece, so no side gains pieces; the text always
/// holds eight rows of eight squares.
#[verifier::external_body]
pub(crate) fn apply_move(fen: &Vec<char>, m: Move) -> (r: Vec<char>)
    requires
        is_legal_in(fen@, m),
    ensures
        r@ == fen_after(fen@, m),
        no_side_grows(fen@, r@),
{
    let text: String = fen.iter().collect();
    let board = chess::Board::from_str(&text).unwrap_or_default();
    let promotion = m.promotion.map(|k| chess::ALL_PIECES[kind_index(k)]);
    let sq = chess::ALL_SQUARES;
    let next = board.make_move_new(chess::ChessMove::new(sq[m.from as usize], sq[m.to as usize], promotion));
    next.to_string().chars().collect()
}

/// Relies on chess's `Board::from_str` and `Board::side_to_move`.
#[verifier::external_body]
pub(crate) fn side_to_move(fen: &Vec<char>) -> (r: Option<Side>)
    ensures
        r == side_to_move_of(fen@),
{
    let text: String = fen.iter().collect();
    match chess::Board::from_str(&text).ok()?.side_to_move() {
        chess::Color::White => Some(Side::White),
        chess::Color::Black => Some(Side::Black),
    }
}

} // verus!
