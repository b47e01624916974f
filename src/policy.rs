use vstd::prelude::*;
use rand::Rng;
use crate::piece::Side;
use crate::rules::{
    apply_move, fen_after, fits_move_generator, legal_moves, legal_moves_of, side_to_move,
    side_to_move_of, within_piece_limit,
};
use crate::search::{engine_move, is_first_best};

verus! {

/// One chance in this many that the player acts in a given cycle.
pub const TRIGGER_ODDS: usize = 24;

/// The depth, in plies, of the engine's search.
pub const SEARCH_DEPTH: u32 = 4;

/// How the automatic player picks its move.
#[derive(Clone, Copy, Debug, PartialEq, Eq, Structural)]
pub enum Policy {
    /// The best move of a fixed-depth search.
    Engine,
    /// A move drawn uniformly from the legal moves.
    Random,
}

/// The live position, as FEN text, and the position last drawn on screen.
pub struct GameState {
    pub fen: Vec<char>,
    pub shown: Vec<char>,
}

/// Relies on rand's `thread_rng().gen_range`: a draw from `0..n`.
#[verifier::external_body]
pub(crate) fn random_below(n: usize) -> (r: usize)
    requires
        n > 0,
    ensures
        r < n,
{
    rand::thread_rng().gen_range(0..n)
}

/// Whether a cycle acts: it is the player's side to move and the roll came up 0.
pub open spec fn acts(fen: Seq<char>, side: Side, roll: usize) -> bool {
    side_to_move_of(fen) == Some(side) && roll == 0
}

/// The positions that the engine may reach from `fen`: the first best move's
/// result, or `fen` itself when there is no legal move.
pub open spec fn engine_outcome(fen: Seq<char>, depth: nat, next: Seq<char>) -> bool {
    if !within_piece_limit(fen) {
        next == fen
    } else {
        match legal_moves_of(fen) {
        Some(ms) => if ms.len() == 0 {
            next == fen
        } else {
            exists|i: int| is_first_best(fen, ms, depth, i) && next == fen_after(fen, ms[i])
        },
        None => next == fen,
        }
    }
}

/// The positions that a random move may reach from `fen`: any legal move's
/// result, or `fen` itself when there is no legal move.
pub open spec fn random_outcome(fen: Seq<char>, next: Seq<char>) -> bool {
    if !within_piece_limit(fen) {
        next == fen
    } else {
        match legal_moves_of(fen) {
        Some(ms) => if ms.len() == 0 {
            next == fen
        } else {
            exists|i: int| 0 <= i < ms.len() && next == fen_after(fen, ms[i])
        },
        None => next == fen,
        }
    }
}

/// Plays the legal move at position `pick` in the rules engine's order;
/// `None` when there is no such move or the position is not one that the
/// move generator may be asked about.
pub fn play_pick(fen: &Vec<char>, pick: usize) -> (r: Option<Vec<char>>)
    ensures
        r is Some <==> (within_piece_limit(fen@) && (legal_moves_of(fen@) matches Some(ms) && pick
            < ms.len())),
        r matches Some(next) ==> (legal_moves_of(fen@) matches Some(ms) && next@ == fen_after(
            fen@,
            ms[pick as int],
        )),
{
    if !fits_move_generator(fen) {
        return None;
    }
    let moves = match legal_moves(fen) {
        Some(v) => v,
        None => {
            return None;
        },
    };
    if pick >= moves.len() {
        return None;
    }
    let m = moves[pick];
    assert(moves@.contains(m)) by {
        assert(moves@[pick as int] == m);
    }
    Some(apply_move(fen, m))
}

/// Plays a uniformly drawn legal move; `None` when there is none, or when
/// the position is not one that the move generator may be asked about.
pub fn random_move(fen: &Vec<char>) -> (r: Option<Vec<char>>)
    ensures
        r is None <==> (within_piece_limit(fen@) ==> (legal_moves_of(fen@) matches Some(ms)
            ==> ms.len() == 0)),
        r matches Some(next) ==> random_outcome(fen@, next@),
{
    if !fits_move_generator(fen) {
        return None;
    }
    let moves = match legal_moves(fen) {
        Some(v) => v,
        None => {
            return None;
        },
    };
    if moves.len() == 0 {
        return None;
    }
    let pick = random_below(moves.len());
    play_pick(fen, pick)
}

/// Whether the game has ended: the side to move has no legal move, or the
/// position is not one that the move generator may be asked about.
pub fn game_over(fen: &Vec<char>) -> (r: bool)
    ensures
        r == !(within_piece_limit(fen@) && (legal_moves_of(fen@) matches Some(ms) && ms.len() > 0)),
{
    if !fits_move_generator(fen) {
        return true;
    }
    match legal_moves(fen) {
        Some(v) => v.len() == 0,
        None => true,
    }
}

/// The side to move, as the rules engine reads the position.
pub fn side_to_play(fen: &Vec<char>) -> (r: Option<Side>)
    ensures
        r == side_to_move_of(fen@),
{
    side_to_move(fen)
}

impl GameState {
    /// One decision cycle with a given roll: when it is `side`'s turn and the
    /// roll is 0, the policy plays a move on the live position. The engine
    /// searches for the move best for White, so it plays White only.
    pub fn cycle_with_roll(&mut self, policy: Policy, side: Side, roll: usize, depth: u32)
        requires
            depth >= 1,
            policy == Policy::Engine ==> side == Side::White,
        ensures
            final(self).shown == old(self).shown,
            !acts(old(self).fen@, side, roll) ==> final(self).fen@ == old(self).fen@,
            acts(old(self).fen@, side, roll) && policy == Policy::Engine ==> engine_outcome(
                old(self).fen@,
                depth as nat,
                final(self).fen@,
            ),
            acts(old(self).fen@, side, roll) && policy == Policy::Random ==> random_outcome(
                old(self).fen@,
                final(self).fen@,
            ),
    {
        if roll != 0 {
            return;
        }
        match side_to_move(&self.fen) {
            Some(s) => {
                if s != side {
                    return;
                }
            },
            None => {
                return;
            },
        }
        let next = match policy {
            Policy::Engine => engine_move(&self.fen, depth),
            Policy::Random => random_move(&self.fen),
        };
        match next {
            Some(n) => {
                self.fen = n;
            },
            None => {},
        }
    }

    /// One decision cycle: rolls for the trigger, one chance in
    /// `TRIGGER_ODDS`, then acts as `cycle_with_roll` does.
    pub fn play_cycle(&mut self, policy: Policy, side: Side)
        requires
            policy == Policy::Engine ==> side == Side::White,
        ensures
            final(self).shown == old(self).shown,
            final(self).fen@ == old(self).fen@ || (side_to_move_of(old(self).fen@) == Some(side)
                && (policy == Policy::Engine ==> engine_outcome(
                old(self).fen@,
                SEARCH_DEPTH as nat,
                final(self).fen@,
            )) && (policy == Policy::Random ==> random_outcome(old(self).fen@, final(self).fen@))),
    {
        let roll = random_below(TRIGGER_ODDS);
        self.cycle_with_roll(policy, side, roll, SEARCH_DEPTH);
    }

    /// Whether the live position differs from the one last drawn.
    pub fn needs_redraw(&self) -> (r: bool)
        ensures
            r == (self.fen@ != self.shown@),
    {
        if self.fen.len() != self.shown.len() {
            return true;
        }
        let mut i: usize = 0;
        while i < self.fen.len()
            invariant
                self.fen@.len() == self.shown@.len(),
                i <= self.fen@.len(),
                forall|j: int| 0 <= j < i ==> self.fen@[j] == self.shown@[j],
            decreases self.fen@.len() - i,
        {
            if self.fen[i] != self.shown[i] {
                return true;
            }
            i = i + 1;
        }
        assert(self.fen@ =~= self.shown@);
        false
    }

    /// Records that the live position has been drawn.
    pub fn mark_shown(&mut self)
        ensures
            final(self).fen == old(self).fen,
            final(self).shown@ == old(self).fen@,
    {
        let mut copy: Vec<char> = Vec::new();
        let mut i: usize = 0;
        while i < self.fen.len()
            invariant
                i <= self.fen@.len(),
                copy@ == self.fen@.take(i as int),
            decreases self.fen@.len() - i,
        {
            copy.push(self.fen[i]);
            i = i + 1;
            assert(copy@ =~= self.fen@.take(i as int));
        }
        assert(copy@ =~= self.fen@);
        self.shown = copy;
    }
}

} // verus!
