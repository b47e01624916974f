use std::str::FromStr;

use chess_engine::eval::evaluate;
use chess_engine::fen::{parse_placement, write_placement};
use chess_engine::input::{build_move, coords_to_square, is_legal, Gesture};
use chess_engine::piece::{occupant_from_char, occupant_to_char, Occupant, PieceKind, Side};
use chess_engine::policy::{game_over, play_pick, random_move, side_to_play, GameState, Policy};
use chess_engine::rules::{fits_move_generator, kind_from_index, kind_index, Move};
use chess_engine::search::{choose_move, engine_move, minimax, score_position};

const START: &str = "rnbqkbnr/pppppppp/8/8/8/8/PPPPPPPP/RNBQKBNR w KQkq - 0 1";
const FOOLS_MATE: &str = "rnb1kbnr/pppp1ppp/8/4p3/6Pq/5P2/PPPPP2P/RNBQKBNR w KQkq - 1 3";
const STALEMATE: &str = "7k/5Q2/6K1/8/8/8/8/8 b - - 0 1";
const PROMOTION: &str = "7k/4P3/8/8/8/8/8/4K3 w - - 0 1";

fn text(s: &str) -> Vec<char> {
    s.chars().collect()
}

fn layout(s: &str) -> Vec<Option<Occupant>> {
    parse_placement(&text(s)).expect("a readable placement")
}

fn mirrored(l: &[Option<Occupant>]) -> Vec<Option<Occupant>> {
    l.iter()
        .map(|o| {
            o.map(|p| Occupant {
                kind: p.kind,
                side: if p.side == Side::White { Side::Black } else { Side::White },
            })
        })
        .collect()
}

fn legal_successors(fen: &str) -> Vec<(chess::ChessMove, String)> {
    let board = chess::Board::from_str(fen).unwrap();
    chess::MoveGen::new_legal(&board)
        .map(|m| (m, board.make_move_new(m).to_string()))
        .collect()
}

fn to_move(m: chess::ChessMove) -> Move {
    Move {
        from: m.get_source().to_int(),
        to: m.get_dest().to_int(),
        promotion: m.get_promotion().and_then(|p| kind_from_index(p.to_index())),
    }
}

#[test]
fn start_position_scores_zero() {
    assert_eq!(evaluate(&layout(START)), 0);
    assert_eq!(score_position(&text(START)), 0);
}

#[test]
fn pawn_on_e4_scores_twenty() {
    let fen = "rnbqkbnr/pppppppp/8/8/4P3/8/PPPP1PPP/RNBQKBNR b KQkq e3 0 1";
    assert_eq!(evaluate(&layout(fen)), 20);
}

#[test]
fn lone_knight_in_corner_scores_its_table_entry() {
    assert_eq!(evaluate(&layout("8/8/8/8/8/8/8/N7 w - - 0 1")), -50);
    assert_eq!(evaluate(&layout("8/8/8/8/8/8/8/n7 w - - 0 1")), 50);
}

#[test]
fn each_kind_uses_its_own_table_for_both_sides() {
    for c in ['p', 'n', 'b', 'r', 'q', 'k'] {
        let black = format!("8/8/8/8/3{}4/8/8/8 w - - 0 1", c);
        let white = format!("8/8/8/8/3{}4/8/8/8 w - - 0 1", c.to_ascii_uppercase());
        assert_eq!(evaluate(&layout(&white)), -evaluate(&layout(&black)));
    }
    assert_ne!(
        evaluate(&layout("8/8/8/8/8/8/8/R7 w - - 0 1")),
        evaluate(&layout("8/8/8/8/8/8/8/N7 w - - 0 1"))
    );
}

#[test]
fn mirroring_colors_negates_the_score() {
    for fen in [START, FOOLS_MATE, PROMOTION, "rnbqkbnr/pppppppp/8/8/4P3/8/PPPP1PPP/RNBQKBNR b KQkq e3 0 1"] {
        let l = layout(fen);
        assert_eq!(evaluate(&mirrored(&l)), -evaluate(&l));
    }
}

#[test]
fn placement_reader_reads_start_position() {
    let l = layout(START);
    assert_eq!(l.len(), 64);
    assert_eq!(l[0], Some(Occupant { kind: PieceKind::Rook, side: Side::Black }));
    assert_eq!(l[4], Some(Occupant { kind: PieceKind::King, side: Side::Black }));
    assert_eq!(l[8], Some(Occupant { kind: PieceKind::Pawn, side: Side::Black }));
    assert_eq!(l[20], None);
    assert_eq!(l[52], Some(Occupant { kind: PieceKind::Pawn, side: Side::White }));
    assert_eq!(l[59], Some(Occupant { kind: PieceKind::Queen, side: Side::White }));
    assert_eq!(l[63], Some(Occupant { kind: PieceKind::Rook, side: Side::White }));
}

#[test]
fn placement_reader_rejects_malformed_fields() {
    assert!(parse_placement(&text("rnbqkbnr/pppppppp/8/8/8/8/PPPPPPPP w")).is_none());
    assert!(parse_placement(&text("rnbqkbnr/ppppppppp/8/8/8/8/PPPPPPPP/RNBQKBNR w")).is_none());
    assert!(parse_placement(&text("rnbqkbnr/pppppppp/9/8/8/8/PPPPPPPP/RNBQKBNR w")).is_none());
    assert!(parse_placement(&text("rnbqkbnr/pppxpppp/8/8/8/8/PPPPPPPP/RNBQKBNR w")).is_none());
    assert!(parse_placement(&text("rnbqkbnr/ppppppp/8/8/8/8/PPPPPPPP/RNBQKBNR w")).is_none());
    assert!(parse_placement(&text("8/8/8/8/8/8/8/8/8 w")).is_none());
    assert!(parse_placement(&text("")).is_none());
    assert!(parse_placement(&text("8/8/8/8/8/8/8/8")).is_some());
}

#[test]
fn piece_letters_round_trip() {
    for c in "PNBRQKpnbrqk".chars() {
        let o = occupant_from_char(c).unwrap();
        assert_eq!(occupant_to_char(o), c);
    }
    assert_eq!(occupant_from_char('x'), None);
    assert_eq!(occupant_from_char('1'), None);
}

#[test]
fn kind_numbers_follow_the_engine() {
    assert_eq!(kind_index(PieceKind::Queen), chess::Piece::Queen.to_index());
    assert_eq!(kind_index(PieceKind::Knight), chess::Piece::Knight.to_index());
    assert_eq!(kind_from_index(5), Some(PieceKind::King));
    assert_eq!(kind_from_index(6), None);
}

#[test]
fn coordinates_map_to_squares() {
    assert_eq!(coords_to_square(1, 1), Some(0));
    assert_eq!(coords_to_square(5, 2), Some(12));
    assert_eq!(coords_to_square(8, 8), Some(63));
    assert_eq!(coords_to_square(0, 4), None);
    assert_eq!(coords_to_square(9, 4), None);
    assert_eq!(coords_to_square(4, 0), None);
    assert_eq!(coords_to_square(-3, 9), None);
}

#[test]
fn pawn_reaching_far_rank_promotes_to_queen() {
    let l = layout(PROMOTION);
    let m = build_move(&l, 52, 60);
    assert_eq!(m, Move { from: 52, to: 60, promotion: Some(PieceKind::Queen) });
    let king = build_move(&l, 4, 12);
    assert_eq!(king.promotion, None);
    let black = layout("4k3/8/8/8/8/8/3p4/4K3 b - - 0 1");
    assert_eq!(build_move(&black, 11, 3).promotion, Some(PieceKind::Queen));
    assert_eq!(build_move(&layout(START), 12, 28).promotion, None);
}

#[test]
fn promotion_omitted_is_illegal() {
    let fen = text(PROMOTION);
    assert!(!is_legal(&fen, Move { from: 52, to: 60, promotion: None }));
    assert!(is_legal(&fen, Move { from: 52, to: 60, promotion: Some(PieceKind::Queen) }));
}

#[test]
fn legality_follows_the_rules_engine() {
    let fen = text(START);
    assert!(is_legal(&fen, Move { from: 12, to: 28, promotion: None }));
    assert!(!is_legal(&fen, Move { from: 12, to: 36, promotion: None }));
    assert!(!is_legal(&text("not a position"), Move { from: 12, to: 28, promotion: None }));
}

#[test]
fn depth_zero_search_is_the_static_score() {
    let fen = "rnbqkbnr/pppppppp/8/8/4P3/8/PPPP1PPP/RNBQKBNR b KQkq e3 0 1";
    assert_eq!(minimax(&text(fen), 0, false), 20);
}

#[test]
fn depth_one_search_takes_the_best_reply() {
    let fen = "rnbqkbnr/pppppppp/8/8/4P3/8/PPPP1PPP/RNBQKBNR b KQkq e3 0 1";
    let best = legal_successors(fen)
        .iter()
        .map(|(_, next)| score_position(&text(next)))
        .min()
        .unwrap();
    assert_eq!(minimax(&text(fen), 1, false), best);
}

#[test]
fn engine_picks_best_opening_move() {
    let successors = legal_successors(START);
    let scores: Vec<i32> = successors.iter().map(|(_, n)| score_position(&text(n))).collect();
    let top = *scores.iter().max().unwrap();
    assert_eq!(top, 50);
    let tied: Vec<(u8, u8)> = successors
        .iter()
        .zip(scores.iter())
        .filter(|(_, s)| **s == top)
        .map(|((m, _), _)| (m.get_source().to_int(), m.get_dest().to_int()))
        .collect();
    assert_eq!(tied.len(), 2);
    assert!(tied.contains(&(1, 18)));
    assert!(tied.contains(&(6, 21)));
    let at = scores.iter().position(|s| *s == top).unwrap();
    let next = engine_move(&text(START), 1).unwrap();
    assert_eq!(next, text(&successors[at].1));
    assert_eq!(score_position(&next), 50);
}

#[test]
fn choose_move_keeps_first_of_equal_scores() {
    let fen = text(START);
    let moves: Vec<Move> = legal_successors(START).into_iter().map(|(m, _)| to_move(m)).collect();
    let chosen = choose_move(&fen, &moves, 1);
    assert!(moves.contains(&chosen));
    let knights = vec![
        Move { from: 1, to: 16, promotion: None },
        Move { from: 6, to: 23, promotion: None },
    ];
    let a = score_position(&text(&legal_after(START, 1, 16)));
    let b = score_position(&text(&legal_after(START, 6, 23)));
    let expected = if b > a { knights[1] } else { knights[0] };
    assert_eq!(choose_move(&fen, &knights, 1), expected);
}

fn legal_after(fen: &str, from: u8, to: u8) -> String {
    legal_successors(fen)
        .into_iter()
        .find(|(m, _)| m.get_source().to_int() == from && m.get_dest().to_int() == to)
        .unwrap()
        .1
}

#[test]
fn no_search_without_legal_moves() {
    assert_eq!(engine_move(&text(FOOLS_MATE), 1), None);
    assert_eq!(engine_move(&text(STALEMATE), 2), None);
    assert_eq!(random_move(&text(FOOLS_MATE)), None);
    assert_eq!(engine_move(&text("garbage"), 1), None);
}

#[test]
fn random_move_is_a_legal_successor() {
    let next = random_move(&text(START)).unwrap();
    let successors: Vec<Vec<char>> = legal_successors(START).into_iter().map(|(_, n)| text(&n)).collect();
    assert!(successors.contains(&next));
}

#[test]
fn cycle_acts_only_on_zero_roll_and_own_turn() {
    let mut state = GameState { fen: text(START), shown: text(START) };
    state.cycle_with_roll(Policy::Engine, Side::White, 3, 1);
    assert_eq!(state.fen, text(START));
    state.cycle_with_roll(Policy::Random, Side::Black, 0, 1);
    assert_eq!(state.fen, text(START));
    state.cycle_with_roll(Policy::Engine, Side::White, 0, 1);
    assert_eq!(Some(state.fen.clone()), engine_move(&text(START), 1));
    assert_eq!(state.shown, text(START));
}

#[test]
fn random_policy_cycle_plays_a_legal_move() {
    let mut state = GameState { fen: text(START), shown: text(START) };
    state.cycle_with_roll(Policy::Random, Side::White, 0, 1);
    let successors: Vec<Vec<char>> = legal_successors(START).into_iter().map(|(_, n)| text(&n)).collect();
    assert!(successors.contains(&state.fen));
}

#[test]
fn redraw_tracks_the_shown_position() {
    let mut state = GameState { fen: text(START), shown: text(START) };
    assert!(!state.needs_redraw());
    state.fen = engine_move(&text(START), 1).unwrap();
    assert!(state.needs_redraw());
    state.mark_shown();
    assert!(!state.needs_redraw());
    assert_eq!(state.shown, state.fen);
}

#[test]
fn two_picks_play_a_legal_move() {
    let fen = text(START);
    let mut g = Gesture::new();
    assert_eq!(g.select_square(&fen, 12), None);
    assert!(g.awaiting_destination);
    assert_eq!(g.pending_origin, Some(12));
    let next = g.select_square(&fen, 28).unwrap();
    assert_eq!(next, text(&legal_after(START, 12, 28)));
    assert!(!g.awaiting_destination);
    assert_eq!(g.pending_origin, None);
}

#[test]
fn illegal_second_pick_leaves_position() {
    let fen = text(START);
    let mut g = Gesture::new();
    g.select_square(&fen, 12);
    assert_eq!(g.select_square(&fen, 44), None);
    assert!(!g.awaiting_destination);
}

#[test]
fn picks_promote_a_pawn() {
    let fen = text(PROMOTION);
    let mut g = Gesture::new();
    g.select_square(&fen, 52);
    let next: String = g.select_square(&fen, 60).unwrap().into_iter().collect();
    assert!(next.starts_with("4Q2k/"));
}

#[test]
fn placement_writer_writes_start_position() {
    let written: String = write_placement(&layout(START)).into_iter().collect();
    assert_eq!(written, "rnbqkbnr/pppppppp/8/8/8/8/PPPPPPPP/RNBQKBNR");
    let sparse: String = write_placement(&layout(PROMOTION)).into_iter().collect();
    assert_eq!(sparse, "7k/4P3/8/8/8/8/8/4K3");
}

#[test]
fn applied_position_round_trips_through_text() {
    let next = engine_move(&text(START), 1).unwrap();
    let l = parse_placement(&next).unwrap();
    let written = write_placement(&l);
    assert_eq!(&next[..written.len()], &written[..]);
    assert_eq!(next[written.len()], ' ');
    assert_eq!(parse_placement(&written), Some(l.clone()));
    let mut full = written.clone();
    full.extend(" b KQkq - 1 1".chars());
    assert_eq!(parse_placement(&full), Some(l));
}

const CROWDED: &str = "7k/8/8/8/NNNNNNNN/NNNNNNNN/NNNNNNNN/7K w - - 0 1";

#[test]
fn crowded_position_is_kept_from_move_generator() {
    let fen = text(CROWDED);
    assert!(!fits_move_generator(&fen));
    assert!(fits_move_generator(&text(START)));
    assert!(fits_move_generator(&text("8/8/8/8/NNNNNNNN/NNNNNNN1/8/k6K w - - 0 1")));
    assert!(!fits_move_generator(&text("garbage")));
    assert_eq!(engine_move(&fen, 1), None);
    assert_eq!(random_move(&fen), None);
    assert_eq!(play_pick(&fen, 0), None);
    assert!(!is_legal(&fen, Move { from: 32, to: 49, promotion: None }));
    assert!(game_over(&fen));
    let mut g = Gesture::new();
    g.select_square(&fen, 32);
    assert_eq!(g.select_square(&fen, 49), None);
}

#[test]
fn play_pick_plays_the_move_at_that_index() {
    let successors = legal_successors(START);
    assert_eq!(play_pick(&text(START), 0), Some(text(&successors[0].1)));
    let last = successors.len() - 1;
    assert_eq!(play_pick(&text(START), last), Some(text(&successors[last].1)));
    assert_eq!(play_pick(&text(START), successors.len()), None);
    assert_eq!(play_pick(&text(FOOLS_MATE), 0), None);
}

#[test]
fn game_status_follows_the_rules_engine() {
    assert!(!game_over(&text(START)));
    assert!(game_over(&text(FOOLS_MATE)));
    assert!(game_over(&text(STALEMATE)));
    assert_eq!(side_to_play(&text(START)), Some(Side::White));
    assert_eq!(side_to_play(&text(STALEMATE)), Some(Side::Black));
    assert_eq!(side_to_play(&text("garbage")), None);
}

#[test]
fn dead_end_before_full_depth_is_worth_zero() {
    assert_eq!(minimax(&text(FOOLS_MATE), 1, true), 0);
    assert_eq!(minimax(&text(STALEMATE), 3, false), 0);
    assert_ne!(minimax(&text(FOOLS_MATE), 0, true), 0);
}

// The search explores every reply at every ply (full minimax), not only the
// first line below each move: at depth two these differ.
#[test]
fn depth_two_search_is_full_minimax() {
    let mut values = Vec::new();
    let mut differs = false;
    for (_, child) in legal_successors(START) {
        let replies: Vec<i32> = legal_successors(&child)
            .iter()
            .map(|(_, n)| score_position(&text(n)))
            .collect();
        let full = *replies.iter().min().unwrap();
        if full != replies[0] {
            differs = true;
        }
        assert_eq!(minimax(&text(&child), 1, false), full);
        values.push((child, full));
    }
    assert!(differs);
    let top = values.iter().map(|(_, v)| *v).max().unwrap();
    let first = values.iter().find(|(_, v)| *v == top).unwrap();
    assert_eq!(engine_move(&text(START), 2), Some(text(&first.0)));
}

#[test]
fn one_placed_piece_adds_its_table_weight() {
    let empty = "8/8/8/8/8/8/8/8 w - - 0 1";
    let base = evaluate(&layout(empty));
    assert_eq!(base, 0);
    assert_eq!(evaluate(&layout("8/8/8/8/4P3/8/8/8 w - - 0 1")) - base, 20);
    assert_eq!(evaluate(&layout("8/8/8/8/4p3/8/8/8 w - - 0 1")) - base, -20);
    let with_king = evaluate(&layout("8/8/8/8/8/8/8/6K1 w - - 0 1"));
    let with_both = evaluate(&layout("8/8/8/8/8/8/3N4/6K1 w - - 0 1"));
    assert_eq!(with_both - with_king, 5);
}
