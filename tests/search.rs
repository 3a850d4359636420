use scacchi::position::{BLACK, WHITE};
use scacchi::{alpha_beta, best_move_with_count, evaluate, find_best_move, Move, Position, Status};

const START: &str = "rnbqkbnr/pppppppp/8/8/8/8/PPPPPPPP/RNBQKBNR w KQkq - 0 1";
const WHITE_MATES_IN_ONE: &str = "6k1/5ppp/8/8/8/8/8/R5K1 w - - 0 1";
const BLACK_MATES_IN_ONE: &str = "r5k1/8/8/8/8/8/5PPP/6K1 b - - 0 1";
const ONE_REPLY: &str = "7k/8/8/8/8/8/6q1/7K w - - 0 1";
const STALEMATE: &str = "k7/8/1Q6/8/8/8/8/7K b - - 0 1";
const BLACK_MATED: &str = "R5k1/5ppp/8/8/8/8/8/6K1 b - - 0 1";
const WHITE_MATED: &str = "6k1/8/8/8/8/8/5PPP/r5K1 w - - 0 1";

fn pos(fen: &str) -> Position {
    Position::from_fen(fen).expect("valid FEN")
}

/// Minimax over the same tree with no pruning, for comparison.
fn minimax(p: &Position, depth: i8, is_max: bool, leaves: &mut u64) -> i64 {
    if depth == 0 || p.status() != Status::Ongoing {
        *leaves += 1;
        return evaluate(p);
    }
    let mut best = if is_max { i64::MIN } else { i64::MAX };
    for m in p.legal_moves() {
        let v = minimax(&p.after(m), depth - 1, !is_max, leaves);
        best = if is_max { best.max(v) } else { best.min(v) };
    }
    best
}

#[test]
fn start_position_depth_one_gives_a_legal_opening_move() {
    let p = pos(START);
    let moves = p.legal_moves();
    assert_eq!(moves.len(), 20);
    let m = find_best_move(&p, 1).expect("a move");
    assert!(moves.contains(&m));
}

#[test]
fn white_finds_mate_in_one() {
    let p = pos(WHITE_MATES_IN_ONE);
    for depth in 1..3 {
        let m = find_best_move(&p, depth).expect("a move");
        assert_eq!(m, Move { from: 0, to: 56, promotion: None });
        let q = p.play(m).expect("legal");
        assert_eq!(q.status(), Status::Checkmate);
        assert_eq!(evaluate(&q), -20000);
    }
}

#[test]
fn black_finds_mate_in_one() {
    let p = pos(BLACK_MATES_IN_ONE);
    for depth in 1..3 {
        let m = find_best_move(&p, depth).expect("a move");
        assert_eq!(m, Move { from: 56, to: 0, promotion: None });
        let q = p.play(m).expect("legal");
        assert_eq!(q.status(), Status::Checkmate);
        assert_eq!(evaluate(&q), 20000);
    }
}

#[test]
fn only_legal_move_is_returned_at_any_depth() {
    let p = pos(ONE_REPLY);
    let moves = p.legal_moves();
    assert_eq!(moves, vec![Move { from: 7, to: 14, promotion: None }]);
    for depth in 0..4 {
        assert_eq!(find_best_move(&p, depth), Some(moves[0]));
    }
}

#[test]
fn depth_zero_search_is_evaluation() {
    for fen in [START, WHITE_MATES_IN_ONE, BLACK_MATES_IN_ONE] {
        let p = pos(fen);
        for is_max in [false, true] {
            let mut leaves = 0u64;
            assert_eq!(alpha_beta(&p, 0, is_max, i64::MIN, i64::MAX, &mut leaves), evaluate(&p));
            assert_eq!(leaves, 1);
        }
    }
}

#[test]
fn stalemate_evaluates_to_zero() {
    let p = pos(STALEMATE);
    assert_eq!(p.status(), Status::Stalemate);
    assert_eq!(evaluate(&p), 0);
}

#[test]
fn checkmate_scores_by_side_mated() {
    let b = pos(BLACK_MATED);
    assert_eq!(b.status(), Status::Checkmate);
    assert_eq!(b.side_to_move(), BLACK);
    assert_eq!(evaluate(&b), -20000);
    let w = pos(WHITE_MATED);
    assert_eq!(w.status(), Status::Checkmate);
    assert_eq!(w.side_to_move(), WHITE);
    assert_eq!(evaluate(&w), 20000);
}

#[test]
fn start_position_evaluation() {
    assert_eq!(evaluate(&pos(START)), -8010);
}

#[test]
fn pruning_keeps_value_and_saves_leaves() {
    for fen in [START, WHITE_MATES_IN_ONE, BLACK_MATES_IN_ONE, ONE_REPLY] {
        let p = pos(fen);
        for depth in 0..3 {
            for is_max in [false, true] {
                let mut pruned_leaves = 0u64;
                let mut full_leaves = 0u64;
                let v = alpha_beta(&p, depth, is_max, i64::MIN, i64::MAX, &mut pruned_leaves);
                let m = minimax(&p, depth, is_max, &mut full_leaves);
                assert_eq!(v, m);
                assert!(pruned_leaves <= full_leaves);
            }
        }
    }
}

#[test]
fn no_move_exactly_when_game_is_over() {
    for fen in [STALEMATE, BLACK_MATED, WHITE_MATED] {
        let p = pos(fen);
        assert_ne!(p.status(), Status::Ongoing);
        assert_eq!(find_best_move(&p, 2), None);
        assert_eq!(best_move_with_count(&p, 2), (None, 0));
    }
    for fen in [START, WHITE_MATES_IN_ONE, ONE_REPLY] {
        let p = pos(fen);
        assert_eq!(p.status(), Status::Ongoing);
        assert!(find_best_move(&p, 1).is_some());
    }
}

#[test]
fn repeated_search_gives_same_move_and_count() {
    let p = pos(START);
    let first = best_move_with_count(&p, 2);
    let second = best_move_with_count(&p, 2);
    assert_eq!(first, second);
    assert!(first.0.is_some());
    assert!(first.1 > 0);
    assert_eq!(find_best_move(&p, 2), first.0);
}

#[test]
fn leaf_count_at_depth_zero_is_one_per_root_move() {
    let (m, leaves) = best_move_with_count(&pos(START), 0);
    assert!(m.is_some());
    assert_eq!(leaves, 20);
}

#[test]
fn every_piece_lowers_the_evaluation() {
    let kings = pos("4k3/8/8/8/8/8/8/4K3 w - - 0 1");
    assert_eq!(evaluate(&kings), -200);
    let with_pawn = pos("4k3/8/8/8/8/8/4P3/4K3 w - - 0 1");
    assert_eq!(evaluate(&with_pawn), -280);
    let with_black_pawn = pos("4k3/4p3/8/8/8/8/4P3/4K3 w - - 0 1");
    assert_eq!(evaluate(&with_black_pawn), -360);
}

#[test]
fn every_search_evaluates_a_leaf() {
    let p = pos(START);
    for depth in 0..3 {
        for (lo, hi) in [(i64::MIN, i64::MAX), (-8100, -8000), (0, 1)] {
            let mut leaves = 0u64;
            alpha_beta(&p, depth, depth % 2 == 0, lo, hi, &mut leaves);
            assert!(leaves >= 1);
        }
    }
}
