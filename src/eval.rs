use vstd::prelude::*;
use crate::piece::{Occupant, PieceKind, Side, opposite};

verus! {

// Piece-square tables, one per kind. Entry `file * 8 + row` is the weight of
// that kind on the square of the given file (0 = a) and row (0 = rank eight).
pub const PAWN_TABLE: [i32; 64] = [
      0,   0,   0,   0,   0,   0,   0,   0,
     50,  50,  50,  50,  50,  50,  50,  50,
     10,  10,  20,  30,  30,  20,  10,  10,
      5,   5,  10,  25,  25,  10,   5,   5,
      0,   0,   0,  20,  20,   0,   0,   0,
      5,  -5, -10,   0,   0, -10,  -5,   5,
      5,  10,  10, -20, -20,  10,  10,   5,
      0,   0,   0,   0,   0,   0,   0,   0,
];

pub const KNIGHT_TABLE: [i32; 64] = [
    -50, -40, -30, -30, -30, -30, -40, -50,
    -40, -20,   0,   0,   0,   0, -20, -40,
    -30,   0,  10,  15,  15,  10,   0, -30,
    -30,   5,  15,  20,  20,  15,   5, -30,
    -30,   0,  15,  20,  20,  15,   0, -30,
    -30,   5,  10,  15,  15,  10,   5, -30,
    -40, -20,   0,   5,   5,   0, -20, -40,
    -50, -40, -30, -30, -30, -30, -40, -50,
];

pub const BISHOP_TABLE: [i32; 64] = [
    -20, -10, -10, -10, -10, -10, -10, -20,
    -10,   0,   0,   0,   0,   0,   0, -10,
    -10,   0,   5,  10,  10,   5,   0, -10,
    -10,   5,   5,  10,  10,   5,   5, -10,
    -10,   0,  10,  10,  10,  10,   0, -10,
    -10,  10,  10,  10,  10,  10,  10, -10,
    -10,   5,   0,   0,   0,   0,   5, -10,
    -20, -10, -10, -10, -10, -10, -10, -20,
];

pub const ROOK_TABLE: [i32; 64] = [
      0,   0,   0,   0,   0,   0,   0,   0,
      5,  10,  10,  10,  10,  10,  10,   5,
     -5,   0,   0,   0,   0,   0,   0,  -5,
     -5,   0,   0,   0,   0,   0,   0,  -5,
     -5,   0,   0,   0,   0,   0,   0,  -5,
     -5,   0,   0,   0,   0,   0,   0,  -5,
     -5,   0,   0,   0,   0,   0,   0,  -5,
      0,   0,   0,   5,   5,   0,   0,   0,
];

pub const QUEEN_TABLE: [i32; 64] = [
    -20, -10, -10,  -5,  -5, -10, -10, -20,
    -10,   0,   0,   0,   0,   0,   0, -10,
    -10,   0,   5,   5,   5,   5,   0, -10,
     -5,   0,   5,   5,   5,   5,   0,  -5,
      0,   0,   5,   5,   5,   5,   0,  -5,
    -10,   5,   5,   5,   5,   5,   0, -10,
    -10,   0,   5,   0,   0,   0,   0, -10,
    -20, -10, -10,  -5,  -5, -10, -10, -20,
];

pub const KING_TABLE: [i32; 64] = [
    -30, -40, -40, -50, -50, -40, -40, -30,
    -30, -40, -40, -50, -50, -40, -40, -30,
    -30, -40, -40, -50, -50, -40, -40, -30,
    -30, -40, -40, -50, -50, -40, -40, -30,
    -20, -30, -30, -40, -40, -30, -30, -20,
    -10, -20, -20, -20, -20, -20, -20, -10,
     20,  20,   0,   0,   0,   0,  20,  20,
     20,  30,  10,   0,   0,  10,  30,  20,
];

/// A layout lists the 64 squares in FEN order: row 0 is rank eight, and
/// square `row * 8 + file` is the `file`-th square of that row.
pub open spec fn is_layout(s: Seq<Option<Occupant>>) -> bool {
    s.len() == 64
}

pub open spec fn table_of(kind: PieceKind) -> [i32; 64] {
    match kind {
        PieceKind::Pawn => PAWN_TABLE,
        PieceKind::Knight => KNIGHT_TABLE,
        PieceKind::Bishop => BISHOP_TABLE,
        PieceKind::Rook => ROOK_TABLE,
        PieceKind::Queen => QUEEN_TABLE,
        PieceKind::King => KING_TABLE,
    }
}

/// The positional weight of a piece kind on layout square `sq`.
pub open spec fn weight(kind: PieceKind, sq: int) -> int {
    table_of(kind)@[(sq % 8) * 8 + sq / 8] as int
}

/// What one square adds to the score: its weight for a White piece, minus
/// its weight for a Black one, nothing when empty.
pub open spec fn square_score(o: Option<Occupant>, sq: int) -> int {
    match o {
        None => 0,
        Some(p) => if p.side == Side::White {
            weight(p.kind, sq)
        } else {
            -weight(p.kind, sq)
        },
    }
}

/// The score of the first `n` squares of a layout.
pub open spec fn score_prefix(s: Seq<Option<Occupant>>, n: int) -> int
    decreases n,
{
    if n <= 0 {
        0
    } else {
        score_prefix(s, n - 1) + square_score(s[n - 1], n - 1)
    }
}

/// The score of a layout: positive favours White, negative favours Black.
pub open spec fn layout_score(s: Seq<Option<Occupant>>) -> int {
    score_prefix(s, s.len() as int)
}

/// The same layout with every piece handed to the other side, none moved.
pub open spec fn mirror_colors(s: Seq<Option<Occupant>>) -> Seq<Option<Occupant>> {
    s.map_values(
        |o: Option<Occupant>|
            match o {
                None => None,
                Some(p) => Some(Occupant { kind: p.kind, side: opposite(p.side) }),
            },
    )
}

proof fn lemma_mirror_prefix(s: Seq<Option<Occupant>>, n: int)
    requires
        0 <= n <= s.len(),
    ensures
        score_prefix(mirror_colors(s), n) == -score_prefix(s, n),
    decreases n,
{
    if n > 0 {
        lemma_mirror_prefix(s, n - 1);
    }
}

/// Zero-sum symmetry: handing every piece to the other side negates the score.
pub proof fn lemma_evaluate_mirror(s: Seq<Option<Occupant>>)
    ensures
        layout_score(mirror_colors(s)) == -layout_score(s),
{
    lemma_mirror_prefix(s, s.len() as int);
}

proof fn lemma_one_square_prefix(
    s: Seq<Option<Occupant>>,
    s2: Seq<Option<Occupant>>,
    sq: int,
    n: int,
)
    requires
        s.len() == s2.len(),
        0 <= sq < s.len(),
        0 <= n <= s.len(),
        forall|j: int| 0 <= j < s.len() && j != sq ==> s2[j] == s[j],
    ensures
        score_prefix(s2, n) - score_prefix(s, n) == if n > sq {
            square_score(s2[sq], sq) - square_score(s[sq], sq)
        } else {
            0
        },
    decreases n,
{
    if n > 0 {
        lemma_one_square_prefix(s, s2, sq, n - 1);
    }
}

/// Placing a piece on an empty square changes the score by that square's
/// table weight for the piece's kind: added for White, subtracted for Black.
pub proof fn lemma_one_square_change(
    s: Seq<Option<Occupant>>,
    s2: Seq<Option<Occupant>>,
    sq: int,
    p: Occupant,
)
    requires
        is_layout(s),
        is_layout(s2),
        0 <= sq < 64,
        s[sq] is None,
        s2[sq] == Some(p),
        forall|j: int| 0 <= j < 64 && j != sq ==> s2[j] == s[j],
    ensures
        layout_score(s2) - layout_score(s) == if p.side == Side::White {
            weight(p.kind, sq)
        } else {
            -weight(p.kind, sq)
        },
{
    lemma_one_square_prefix(s, s2, sq, 64);
}

proof fn lemma_tables_bounded(kind: PieceKind, k: int)
    requires
        0 <= k < 64,
    ensures
        -50 <= table_of(kind)@[k] <= 50,
{
}

/// Every square contributes at most 50 either way.
proof fn lemma_prefix_bounded(s: Seq<Option<Occupant>>, n: int)
    requires
        0 <= n <= s.len(),
        n <= 64,
    ensures
        -50 * n <= score_prefix(s, n) <= 50 * n,
    decreases n,
{
    if n > 0 {
        lemma_prefix_bounded(s, n - 1);
        let sq = n - 1;
        let k = (sq % 8) * 8 + sq / 8;
        assert(0 <= k < 64) by (nonlinear_arith)
            requires k == (sq % 8) * 8 + sq / 8, 0 <= sq < 64;
        match s[sq] {
            None => {},
            Some(p) => lemma_tables_bounded(p.kind, k),
        }
    }
}

/// The weight of a piece kind on a layout square.
pub fn square_weight(kind: PieceKind, sq: usize) -> (w: i32)
    requires
        sq < 64,
    ensures
        w == weight(kind, sq as int),
{
    let k: usize = (sq % 8) * 8 + sq / 8;
    assert(k < 64) by (nonlinear_arith)
        requires k == (sq % 8) * 8 + sq / 8, sq < 64;
    match kind {
        PieceKind::Pawn => PAWN_TABLE[k],
        PieceKind::Knight => KNIGHT_TABLE[k],
        PieceKind::Bishop => BISHOP_TABLE[k],
        PieceKind::Rook => ROOK_TABLE[k],
        PieceKind::Queen => QUEEN_TABLE[k],
        PieceKind::King => KING_TABLE[k],
    }
}

/// Scores a layout with the piece-square tables, White positive.
pub fn evaluate(layout: &Vec<Option<Occupant>>) -> (r: i32)
    requires
        is_layout(layout@),
    ensures
        r == layout_score(layout@),
        -3200 <= r <= 3200,
{
    let mut total: i32 = 0;
    let mut sq: usize = 0;
    while sq < 64
        invariant
            layout@.len() == 64,
            sq <= 64,
            total == score_prefix(layout@, sq as int),
        decreases 64 - sq,
    {
        proof {
            lemma_prefix_bounded(layout@, sq as int);
            lemma_prefix_bounded(layout@, sq as int + 1);
        }
        match layout[sq] {
            None => {},
            Some(p) => {
                let w = square_weight(p.kind, sq);
                if p.side == Side::White {
                    total = total + w;
                } else {
                    total = total - w;
                }
            },
        }
        sq = sq + 1;
    }
    proof {
        lemma_prefix_bounded(layout@, 64);
    }
    total
}

} // verus!
