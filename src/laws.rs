use vstd::prelude::*;
use crate::eval::{evaluation, lemma_evaluation_bound};
use crate::position::{after_move, legal_moves_of, status_of, Move, PositionView, Status, BLACK};
use crate::search::{best_move, full, full_from, pick, pruned, pruned_from, root_from, sentinel};

verus! {

/// `r` is what a fail-soft search with window `(lo, hi)` may report for the true
/// score `m`: an upper bound when it fails low, a lower bound when it fails
/// high, and `m` itself inside the window.
pub open spec fn approximates(r: int, m: int, lo: int, hi: int) -> bool {
    &&& r <= lo ==> m <= r
    &&& r >= hi ==> m >= r
    &&& lo < r < hi ==> m == r
}

/// The minimax loop never ends worse for its side than the best it started with.
proof fn lemma_full_from_keeps_best(
    p: PositionView,
    moves: Seq<Move>,
    i: nat,
    depth: nat,
    is_max: bool,
    best: int,
)
    ensures
        is_max ==> full_from(p, moves, i, depth, is_max, best).0 >= best,
        !is_max ==> full_from(p, moves, i, depth, is_max, best).0 <= best,
    decreases moves.len() - i,
{
    if i < moves.len() && depth > 0 {
        let v = full(after_move(p, moves[i as int]), (depth - 1) as nat, !is_max).0;
        lemma_full_from_keeps_best(p, moves, i + 1, depth, is_max, pick(is_max, best, v));
    }
}

/// Every score of either search lies within the range of `i64`.
proof fn lemma_scores_in_range(p: PositionView, depth: nat, is_max: bool, alpha: int, beta: int)
    ensures
        i64::MIN <= full(p, depth, is_max).0 <= i64::MAX,
        i64::MIN <= pruned(p, depth, is_max, alpha, beta).0 <= i64::MAX,
    decreases depth, legal_moves_of(p).len() + 1,
{
    if depth == 0 || status_of(p) != Status::Ongoing {
        lemma_evaluation_bound(p);
    } else {
        lemma_scores_in_range_from(
            p,
            legal_moves_of(p),
            0,
            depth,
            is_max,
            alpha,
            beta,
            sentinel(is_max),
            sentinel(is_max),
        );
    }
}

proof fn lemma_scores_in_range_from(
    p: PositionView,
    moves: Seq<Move>,
    i: nat,
    depth: nat,
    is_max: bool,
    alpha: int,
    beta: int,
    best: int,
    best_full: int,
)
    requires
        i64::MIN <= best <= i64::MAX,
        i64::MIN <= best_full <= i64::MAX,
    ensures
        i64::MIN <= full_from(p, moves, i, depth, is_max, best_full).0 <= i64::MAX,
        i64::MIN <= pruned_from(p, moves, i, depth, is_max, alpha, beta, best).0 <= i64::MAX,
    decreases depth, moves.len() - i,
{
    if i < moves.len() && depth > 0 {
        let c = after_move(p, moves[i as int]);
        let d = (depth - 1) as nat;
        lemma_scores_in_range(c, d, !is_max, alpha, beta);
        let v = pruned(c, d, !is_max, alpha, beta).0;
        let m = full(c, d, !is_max).0;
        let best2 = pick(is_max, best, v);
        let alpha2 = if is_max && best2 > alpha {
            best2
        } else {
            alpha
        };
        let beta2 = if !is_max && best2 < beta {
            best2
        } else {
            beta
        };
        lemma_scores_in_range_from(
            p,
            moves,
            i + 1,
            depth,
            is_max,
            alpha2,
            beta2,
            best2,
            pick(is_max, best_full, m),
        );
    }
}

/// Alpha-beta within any window `(lo, hi)` approximates minimax: it reports
/// the minimax score itself when that lies inside the window, an upper bound
/// when it fails low and a lower bound when it fails high; and it evaluates no
/// more leaves than minimax.
pub proof fn lemma_window(p: PositionView, depth: nat, is_max: bool, lo: int, hi: int)
    requires
        i64::MIN <= lo < hi <= i64::MAX,
    ensures
        approximates(pruned(p, depth, is_max, lo, hi).0, full(p, depth, is_max).0, lo, hi),
        pruned(p, depth, is_max, lo, hi).1 <= full(p, depth, is_max).1,
    decreases depth, legal_moves_of(p).len() + 1,
{
    if depth > 0 && status_of(p) == Status::Ongoing {
        let s = sentinel(is_max);
        lemma_window_from(p, legal_moves_of(p), 0, depth, is_max, lo, hi, lo, hi, s, s);
    }
}

/// The loop form of `lemma_window`: `best` approximates the minimax score
/// `best_full` of the moves before `i` with respect to the node's window
/// `(lo, hi)`, and the current window `(alpha, beta)` narrows it by `best`.
proof fn lemma_window_from(
    p: PositionView,
    moves: Seq<Move>,
    i: nat,
    depth: nat,
    is_max: bool,
    lo: int,
    hi: int,
    alpha: int,
    beta: int,
    best: int,
    best_full: int,
)
    requires
        i64::MIN <= lo < hi <= i64::MAX,
        alpha < beta,
        is_max ==> beta == hi && alpha == (if best > lo {
            best
        } else {
            lo
        }),
        !is_max ==> alpha == lo && beta == (if best < hi {
            best
        } else {
            hi
        }),
        approximates(best, best_full, lo, hi),
    ensures
        approximates(
            pruned_from(p, moves, i, depth, is_max, alpha, beta, best).0,
            full_from(p, moves, i, depth, is_max, best_full).0,
            lo,
            hi,
        ),
        pruned_from(p, moves, i, depth, is_max, alpha, beta, best).1 <= full_from(
            p,
            moves,
            i,
            depth,
            is_max,
            best_full,
        ).1,
    decreases depth, moves.len() - i,
{
    if i < moves.len() && depth > 0 {
        let c = after_move(p, moves[i as int]);
        let d = (depth - 1) as nat;
        lemma_window(c, d, !is_max, alpha, beta);
        let v = pruned(c, d, !is_max, alpha, beta).0;
        let m = full(c, d, !is_max).0;
        let best2 = pick(is_max, best, v);
        let full2 = pick(is_max, best_full, m);
        let alpha2 = if is_max && best2 > alpha {
            best2
        } else {
            alpha
        };
        let beta2 = if !is_max && best2 < beta {
            best2
        } else {
            beta
        };
        assert(approximates(best2, full2, lo, hi));
        if beta2 <= alpha2 {
            lemma_full_from_keeps_best(p, moves, i + 1, depth, is_max, full2);
        } else {
            lemma_window_from(p, moves, i + 1, depth, is_max, lo, hi, alpha2, beta2, best2, full2);
        }
    }
}

/// Alpha-beta pruning does not change the result: with the full window, the
/// pruned search scores every position exactly as plain minimax does, and it
/// evaluates no more leaves.
pub proof fn lemma_pruning_keeps_value(p: PositionView, depth: nat, is_max: bool)
    ensures
        pruned(p, depth, is_max, i64::MIN as int, i64::MAX as int).0 == full(p, depth, is_max).0,
        pruned(p, depth, is_max, i64::MIN as int, i64::MAX as int).1 <= full(p, depth, is_max).1,
{
    lemma_window(p, depth, is_max, i64::MIN as int, i64::MAX as int);
    lemma_scores_in_range(p, depth, is_max, i64::MIN as int, i64::MAX as int);
}

/// A search of depth zero is the static evaluation, for either side.
pub proof fn lemma_depth_zero_is_evaluation(p: PositionView, is_max: bool)
    requires
        status_of(p) == Status::Ongoing,
    ensures
        pruned(p, 0, is_max, i64::MIN as int, i64::MAX as int).0 == evaluation(p),
{
}

/// The choice of move depends on the position and the depth alone: searching
/// the same position to the same depth twice gives the same move and the same
/// number of leaves.
pub proof fn lemma_best_move_deterministic(p: PositionView, q: PositionView, depth: nat)
    requires
        p == q,
    ensures
        best_move(p, depth) == best_move(q, depth),
{
}

/// The score the root search gives to the `i`-th legal move of `p`.
pub open spec fn root_score(p: PositionView, depth: nat, i: int) -> int {
    pruned(
        after_move(p, legal_moves_of(p)[i]),
        depth,
        p.side == BLACK,
        i64::MIN as int,
        i64::MAX as int,
    ).0
}

/// Whether score `x` is strictly better than `y` for the side to move at the
/// root (higher for Black, lower for White).
pub open spec fn prefers(black: bool, x: int, y: int) -> bool {
    if black {
        x > y
    } else {
        x < y
    }
}

proof fn lemma_root_from_extremal(
    p: PositionView,
    depth: nat,
    i: nat,
    k: int,
    best: int,
    chosen: Option<Move>,
)
    requires
        i <= legal_moves_of(p).len(),
        chosen is None ==> best == sentinel(p.side == BLACK),
        chosen is Some ==> 0 <= k < i && chosen == Some(legal_moves_of(p)[k]) && best
            == root_score(p, depth, k),
        chosen is Some ==> forall|j: int|
            0 <= j < k ==> prefers(p.side == BLACK, best, #[trigger] root_score(p, depth, j)),
        forall|j: int|
            0 <= j < i ==> !prefers(p.side == BLACK, #[trigger] root_score(p, depth, j), best),
    ensures
        ({
            let moves = legal_moves_of(p);
            let r = root_from(p, moves, i, depth, p.side == BLACK, best, chosen).0;
            r is Some ==> exists|c: int|
                0 <= c < moves.len() && r == Some(moves[c]) && (forall|j: int|
                    0 <= j < moves.len() ==> !prefers(
                        p.side == BLACK,
                        #[trigger] root_score(p, depth, j),
                        root_score(p, depth, c),
                    )) && (forall|j: int|
                    0 <= j < c ==> prefers(
                        p.side == BLACK,
                        root_score(p, depth, c),
                        #[trigger] root_score(p, depth, j),
                    ))
        }),
    decreases legal_moves_of(p).len() - i,
{
    let moves = legal_moves_of(p);
    let black = p.side == BLACK;
    if i >= moves.len() {
        if chosen is Some {
            assert(root_from(p, moves, i, depth, black, best, chosen).0 == Some(moves[k]));
        }
    } else {
        let v = root_score(p, depth, i as int);
        if prefers(black, v, best) {
            assert forall|j: int| 0 <= j < i implies prefers(black, v, #[trigger] root_score(p, depth, j)) by {
                assert(!prefers(black, root_score(p, depth, j), best));
            }
            lemma_root_from_extremal(p, depth, i + 1, i as int, v, Some(moves[i as int]));
        } else {
            lemma_root_from_extremal(p, depth, i + 1, k, best, chosen);
        }
    }
}

/// The move chosen at the root is one of the legal moves, no other root move
/// scores strictly better for the side to move, and every move before it in
/// the engine's order scores strictly worse: of equal scores, the first wins.
pub proof fn lemma_best_move_is_first_extremal(p: PositionView, depth: nat)
    requires
        best_move(p, depth).0 is Some,
    ensures
        exists|c: int|
            0 <= c < legal_moves_of(p).len() && best_move(p, depth).0 == Some(legal_moves_of(p)[c])
                && (forall|j: int|
                0 <= j < legal_moves_of(p).len() ==> !prefers(
                    p.side == BLACK,
                    #[trigger] root_score(p, depth, j),
                    root_score(p, depth, c),
                )) && (forall|j: int|
                0 <= j < c ==> prefers(
                    p.side == BLACK,
                    root_score(p, depth, c),
                    #[trigger] root_score(p, depth, j),
                )),
{
    lemma_root_from_extremal(p, depth, 0, 0, sentinel(p.side == BLACK), None);
}

/// The search depends on its arguments alone: the same position, depth, side
/// and window give the same score and the same number of leaves.
pub proof fn lemma_search_deterministic(
    p: PositionView,
    q: PositionView,
    depth: nat,
    is_max: bool,
    alpha: int,
    beta: int,
)
    requires
        p == q,
    ensures
        pruned(p, depth, is_max, alpha, beta) == pruned(q, depth, is_max, alpha, beta),
{
}

/// Where some legal move mates at once, the move chosen at the root scores at
/// least as well for the side to move as that mate does.
pub proof fn lemma_mate_in_one_scores_as_mate(p: PositionView, depth: nat, k: int)
    requires
        0 <= k < legal_moves_of(p).len(),
        status_of(after_move(p, legal_moves_of(p)[k])) == Status::Checkmate,
    ensures
        best_move(p, depth).0 is Some,
        exists|c: int|
            0 <= c < legal_moves_of(p).len() && best_move(p, depth).0 == Some(legal_moves_of(p)[c])
                && !prefers(
                p.side == BLACK,
                evaluation(after_move(p, legal_moves_of(p)[k])),
                root_score(p, depth, c),
            ),
{
    let moves = legal_moves_of(p);
    let black = p.side == BLACK;
    assert(root_score(p, depth, k) == evaluation(after_move(p, moves[k])));
    lemma_evaluation_bound(after_move(p, moves[k]));
    lemma_root_from_keeps_choice(p, depth, 0, sentinel(black), None, k);
    lemma_best_move_is_first_extremal(p, depth);
}

/// Once a root move scores better than the sentinel, the root loop chooses a move.
proof fn lemma_root_from_keeps_choice(
    p: PositionView,
    depth: nat,
    i: nat,
    best: int,
    chosen: Option<Move>,
    k: int,
)
    requires
        i <= legal_moves_of(p).len(),
        0 <= k < legal_moves_of(p).len(),
        chosen is None ==> best == sentinel(p.side == BLACK) && i <= k,
        i64::MIN < root_score(p, depth, k) < i64::MAX,
    ensures
        root_from(p, legal_moves_of(p), i, depth, p.side == BLACK, best, chosen).0 is Some,
    decreases legal_moves_of(p).len() - i,
{
    let moves = legal_moves_of(p);
    if i < moves.len() {
        let black = p.side == BLACK;
        let v = root_score(p, depth, i as int);
        if prefers(black, v, best) {
            lemma_root_from_keeps_choice(p, depth, i + 1, v, Some(moves[i as int]), k);
        } else {
            lemma_root_from_keeps_choice(p, depth, i + 1, best, chosen, k);
        }
    }
}

} // verus!
