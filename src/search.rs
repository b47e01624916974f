use vstd::prelude::*;
use crate::eval::{evaluate, layout_score};
use crate::fen::{parse_placement, placement_of};
use crate::rules::{
    Move, apply_move, fen_after, fits_move_generator, is_legal_in, legal_moves, legal_moves_of,
    within_piece_limit,
};

verus! {

/// The static score of the position that a FEN text describes; 0 where its
/// placement field cannot be read.
pub open spec fn position_score(fen: Seq<char>) -> int {
    match placement_of(fen) {
        Some(l) => layout_score(l),
        None => 0,
    }
}

/// The minimax value of a position searched `depth` plies further. Only
/// positions at the full depth are scored statically: a position reached
/// earlier with no legal move is worth 0. Otherwise the value is the best
/// value of the children for the side that `maximizing` names (White
/// maximises, Black minimises), the sides alternating by ply.
pub open spec fn node_value(fen: Seq<char>, depth: nat, maximizing: bool) -> int
    decreases depth, 1int, 0int,
{
    if depth == 0 {
        position_score(fen)
    } else {
        match legal_moves_of(fen) {
            Some(ms) => if ms.len() == 0 {
                0
            } else {
                best_child(fen, ms, ms.len(), depth, maximizing)
            },
            None => 0,
        }
    }
}

/// The best value among the first `k` children of a position.
pub open spec fn best_child(
    fen: Seq<char>,
    ms: Seq<Move>,
    k: nat,
    depth: nat,
    maximizing: bool,
) -> int
    decreases depth, 0int, k,
{
    if depth == 0 || k == 0 || k > ms.len() {
        0
    } else {
        let v = node_value(fen_after(fen, ms[k - 1]), (depth - 1) as nat, !maximizing);
        if k == 1 {
            v
        } else {
            let rest = best_child(fen, ms, (k - 1) as nat, depth, maximizing);
            if maximizing {
                if v > rest {
                    v
                } else {
                    rest
                }
            } else {
                if v < rest {
                    v
                } else {
                    rest
                }
            }
        }
    }
}

/// The value of playing `m` first in a search of `depth` plies in all: the
/// opponent replies in the remaining plies.
pub open spec fn move_value(fen: Seq<char>, m: Move, depth: nat) -> int {
    node_value(fen_after(fen, m), (depth - 1) as nat, false)
}

/// `i` is the first of the moves with the highest value.
pub open spec fn is_first_best(fen: Seq<char>, ms: Seq<Move>, depth: nat, i: int) -> bool {
    &&& 0 <= i < ms.len()
    &&& forall|j: int| 0 <= j < ms.len() ==> move_value(fen, ms[j], depth) <= move_value(fen, ms[i], depth)
    &&& forall|j: int| 0 <= j < i ==> move_value(fen, ms[j], depth) < move_value(fen, ms[i], depth)
}

/// `i` is the first of the moves whose resulting position scores highest
/// statically.
pub open spec fn is_first_static_best(fen: Seq<char>, ms: Seq<Move>, i: int) -> bool {
    &&& 0 <= i < ms.len()
    &&& forall|j: int| 0 <= j < ms.len() ==> position_score(fen_after(fen, ms[j]))
        <= position_score(fen_after(fen, ms[i]))
    &&& forall|j: int| 0 <= j < i ==> position_score(fen_after(fen, ms[j]))
        < position_score(fen_after(fen, ms[i]))
}

/// A search of one ply picks the first move whose resulting position has the
/// highest static score.
pub proof fn lemma_depth_one_static_best(fen: Seq<char>, ms: Seq<Move>, i: int)
    ensures
        is_first_best(fen, ms, 1, i) <==> is_first_static_best(fen, ms, i),
{
    assert forall|j: int| 0 <= j < ms.len() implies move_value(fen, ms[j], 1)
        == position_score(fen_after(fen, ms[j])) by {
        reveal_with_fuel(node_value, 1);
    }
}

/// At most one move is the first best, so the choice of the search is
/// determined by the moves and their order.
pub proof fn lemma_first_best_unique(fen: Seq<char>, ms: Seq<Move>, depth: nat, i: int, j: int)
    requires
        is_first_best(fen, ms, depth, i),
        is_first_best(fen, ms, depth, j),
    ensures
        i == j,
{
    if i < j {
        assert(move_value(fen, ms[i], depth) < move_value(fen, ms[j], depth));
    }
    if j < i {
        assert(move_value(fen, ms[j], depth) < move_value(fen, ms[i], depth));
    }
}

/// Scores a position statically from its FEN placement field.
pub fn score_position(fen: &Vec<char>) -> (r: i32)
    ensures
        r == position_score(fen@),
{
    match parse_placement(fen) {
        Some(layout) => evaluate(&layout),
        None => 0,
    }
}

/// The minimax value of a position searched `depth` plies further.
pub fn minimax(fen: &Vec<char>, depth: u32, maximizing: bool) -> (r: i32)
    requires
        within_piece_limit(fen@),
    ensures
        r == node_value(fen@, depth as nat, maximizing),
    decreases depth,
{
    if depth == 0 {
        return score_position(fen);
    }
    let moves = match legal_moves(fen) {
        Some(v) => v,
        None => {
            return 0;
        },
    };
    if moves.len() == 0 {
        return 0;
    }
    let ghost ms = moves@;
    let mut best: i32 = 0;
    let mut i: usize = 0;
    while i < moves.len()
        invariant
            moves@ == ms,
            legal_moves_of(fen@) == Some(ms),
            within_piece_limit(fen@),
            depth > 0,
            i <= ms.len(),
            i > 0 ==> best == best_child(fen@, ms, i as nat, depth as nat, maximizing),
        decreases ms.len() - i,
    {
        let m = moves[i];
        assert(ms.contains(m)) by {
            assert(ms[i as int] == m);
        }
        let child = apply_move(fen, m);
        let v = minimax(&child, depth - 1, !maximizing);
        if i == 0 || (maximizing && v > best) || (!maximizing && v < best) {
            best = v;
        }
        i = i + 1;
    }
    best
}

/// Picks the first of the supplied legal moves whose search of `depth` plies
/// scores best for White.
pub fn choose_move(fen: &Vec<char>, moves: &Vec<Move>, depth: u32) -> (r: Move)
    requires
        depth >= 1,
        within_piece_limit(fen@),
        moves@.len() > 0,
        forall|j: int| 0 <= j < moves@.len() ==> is_legal_in(fen@, #[trigger] moves@[j]),
    ensures
        moves@.contains(r),
        exists|i: int| is_first_best(fen@, moves@, depth as nat, i) && moves@[i] == r,
{
    let mut best_index: usize = 0;
    let mut best_value: i32 = 0;
    let mut i: usize = 0;
    while i < moves.len()
        invariant
            depth >= 1,
            within_piece_limit(fen@),
            forall|j: int| 0 <= j < moves@.len() ==> is_legal_in(fen@, #[trigger] moves@[j]),
            i <= moves@.len(),
            i > 0 ==> best_index < i,
            i > 0 ==> best_value == move_value(fen@, moves@[best_index as int], depth as nat),
            forall|j: int| 0 <= j < i ==> move_value(fen@, moves@[j], depth as nat) <= best_value,
            forall|j: int| 0 <= j < best_index ==> move_value(fen@, moves@[j], depth as nat) < best_value,
        decreases moves@.len() - i,
    {
        let m = moves[i];
        let child = apply_move(fen, m);
        let v = minimax(&child, depth - 1, false);
        if i == 0 || v > best_value {
            best_index = i;
            best_value = v;
        }
        i = i + 1;
    }
    assert(is_first_best(fen@, moves@, depth as nat, best_index as int));
    moves[best_index]
}

/// Plays the engine's move: `None` when the side to move has no legal move,
/// so that no search is started, and when the position is not one that the
/// move generator may be asked about.
pub fn engine_move(fen: &Vec<char>, depth: u32) -> (r: Option<Vec<char>>)
    requires
        depth >= 1,
    ensures
        !within_piece_limit(fen@) ==> r is None,
        within_piece_limit(fen@) ==> match legal_moves_of(fen@) {
            Some(ms) => if ms.len() == 0 {
                r is None
            } else {
                r matches Some(next) && exists|i: int|
                    is_first_best(fen@, ms, depth as nat, i) && next@ == fen_after(fen@, ms[i])
            },
            None => r is None,
        },
{
    if !fits_move_generator(fen) {
        return None;
    }
    let moves = match legal_moves(fen) {
        Some(v) => v,
        None => {
            return None;
        },
    };
    if moves.len() == 0 {
        return None;
    }
    assert forall|j: int| 0 <= j < moves@.len() implies is_legal_in(fen@, #[trigger] moves@[j]) by {
        assert(moves@.contains(moves@[j]));
    }
    let m = choose_move(fen, &moves, depth);
    Some(apply_move(fen, m))
}

} // verus!
