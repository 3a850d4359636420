use vstd::prelude::*;
use crate::eval::{evaluate, evaluation, lemma_evaluation_bound};
use crate::position::{
    after_move, legal_moves_of, status_of, Move, Position, PositionView, Status, BLACK, NUM_KINDS,
};

verus! {

/// Bound on every score the search can produce.
pub open spec fn score_bound() -> int {
    2105344
}

/// The starting value of `best` at a node: the worst score for its side.
pub open spec fn sentinel(is_max: bool) -> int {
    if is_max {
        i64::MIN as int
    } else {
        i64::MAX as int
    }
}

/// The better of two scores for the side that maximises (or minimises).
pub open spec fn pick(is_max: bool, best: int, v: int) -> int {
    if is_max {
        if v > best {
            v
        } else {
            best
        }
    } else {
        if v < best {
            v
        } else {
            best
        }
    }
}

/// A leaf counter that stops at the largest `u64`.
pub open spec fn capped(n: int) -> int {
    if n > u64::MAX {
        u64::MAX as int
    } else {
        n
    }
}

/// Alpha-beta search of `p` to `depth` plies within the window `(alpha, beta)`:
/// its score and the number of leaves it evaluates.
pub open spec fn pruned(p: PositionView, depth: nat, is_max: bool, alpha: int, beta: int) -> (
    int,
    nat,
)
    decreases depth, legal_moves_of(p).len() + 1,
{
    if depth == 0 || status_of(p) != Status::Ongoing {
        (evaluation(p), 1)
    } else {
        pruned_from(p, legal_moves_of(p), 0, depth, is_max, alpha, beta, sentinel(is_max))
    }
}

/// The alpha-beta loop over `moves` from index `i` on, with the window and best
/// score reached so far; it stops once `beta <= alpha`.
pub open spec fn pruned_from(
    p: PositionView,
    moves: Seq<Move>,
    i: nat,
    depth: nat,
    is_max: bool,
    alpha: int,
    beta: int,
    best: int,
) -> (int, nat)
    decreases depth, moves.len() - i,
{
    if i >= moves.len() || depth == 0 {
        (best, 0)
    } else {
        let (v, n) = pruned(after_move(p, moves[i as int]), (depth - 1) as nat, !is_max, alpha, beta);
        let best2 = pick(is_max, best, v);
        let alpha2 = if is_max && best2 > alpha {
            best2
        } else {
            alpha
        };
        let beta2 = if !is_max && best2 < beta {
            best2
        } else {
            beta
        };
        if beta2 <= alpha2 {
            (best2, n)
        } else {
            let (r, k) = pruned_from(p, moves, i + 1, depth, is_max, alpha2, beta2, best2);
            (r, n + k)
        }
    }
}

/// Minimax search of `p` to `depth` plies with no pruning: its score and the
/// number of leaves it evaluates.
pub open spec fn full(p: PositionView, depth: nat, is_max: bool) -> (int, nat)
    decreases depth, legal_moves_of(p).len() + 1,
{
    if depth == 0 || status_of(p) != Status::Ongoing {
        (evaluation(p), 1)
    } else {
        full_from(p, legal_moves_of(p), 0, depth, is_max, sentinel(is_max))
    }
}

/// The minimax loop over `moves` from index `i` on, with the best score so far.
pub open spec fn full_from(
    p: PositionView,
    moves: Seq<Move>,
    i: nat,
    depth: nat,
    is_max: bool,
    best: int,
) -> (int, nat)
    decreases depth, moves.len() - i,
{
    if i >= moves.len() || depth == 0 {
        (best, 0)
    } else {
        let (v, n) = full(after_move(p, moves[i as int]), (depth - 1) as nat, !is_max);
        let (r, k) = full_from(p, moves, i + 1, depth, is_max, pick(is_max, best, v));
        (r, n + k)
    }
}

/// Alpha-beta search of `p` to `depth` plies within `(alpha, beta)`; each
/// evaluated leaf adds one to `leaves`.
pub fn alpha_beta(
    p: &Position,
    depth: i8,
    is_max: bool,
    alpha: i64,
    beta: i64,
    leaves: &mut u64,
) -> (r: i64)
    requires
        depth >= 0,
    ensures
        r == pruned(p@, depth as nat, is_max, alpha as int, beta as int).0,
        *final(leaves) == capped(
            *old(leaves) + pruned(p@, depth as nat, is_max, alpha as int, beta as int).1,
        ),
        pruned(p@, depth as nat, is_max, alpha as int, beta as int).1 >= 1,
        -score_bound() <= r <= score_bound(),
    decreases depth,
{
    if depth == 0 || p.status() != Status::Ongoing {
        if *leaves < u64::MAX {
            *leaves = *leaves + 1;
        }
        proof {
            lemma_evaluation_bound(p@);
        }
        return evaluate(p);
    }
    let moves = p.legal_moves();
    let ghost d = depth as nat;
    let ghost seen: nat = 0;
    let ghost alpha0 = alpha as int;
    let ghost beta0 = beta as int;
    let mut lo = alpha;
    let mut hi = beta;
    let mut best: i64 = if is_max {
        i64::MIN
    } else {
        i64::MAX
    };
    let mut i: usize = 0;
    while i < moves.len()
        invariant
            d == depth as nat,
            alpha0 == alpha as int,
            beta0 == beta as int,
            depth > 0,
            status_of(p@) == Status::Ongoing,
            moves@ == legal_moves_of(p@),
            moves@.len() > 0,
            i <= moves@.len(),
            forall|j: int|
                0 <= j < moves@.len() ==> #[trigger] moves@[j].from < 64 && moves@[j].to < 64
                    && (moves@[j].promotion matches Some(k) ==> k < NUM_KINDS),
            pruned(p@, d, is_max, alpha0, beta0) == (
                pruned_from(p@, moves@, i as nat, d, is_max, lo as int, hi as int, best as int).0,
                seen + pruned_from(p@, moves@, i as nat, d, is_max, lo as int, hi as int, best as int).1,
            ),
            *leaves == capped(*old(leaves) + seen),
            i > 0 ==> -score_bound() <= best <= score_bound(),
            i > 0 ==> seen >= 1,
            i == 0 ==> best == sentinel(is_max),
        decreases moves@.len() - i,
    {
        let mv = moves[i];
        proof {
            assert(legal_moves_of(p@).contains(mv)) by {
                assert(moves@[i as int] == mv);
            }
        }
        let child = p.after(mv);
        let ghost n = pruned(child@, (d - 1) as nat, !is_max, lo as int, hi as int).1;
        let ghost step = pruned_from(p@, moves@, i as nat, d, is_max, lo as int, hi as int, best as int);
        let v = alpha_beta(&child, depth - 1, !is_max, lo, hi, leaves);
        if is_max {
            if v > best {
                best = v;
            }
            if best > lo {
                lo = best;
            }
        } else {
            if v < best {
                best = v;
            }
            if best < hi {
                hi = best;
            }
        }
        proof {
            seen = seen + n;
        }
        if hi <= lo {
            assert(step == (best as int, n));
            return best;
        }
        assert(step == (
            pruned_from(p@, moves@, (i + 1) as nat, d, is_max, lo as int, hi as int, best as int).0,
            n + pruned_from(p@, moves@, (i + 1) as nat, d, is_max, lo as int, hi as int, best as int).1,
        ));
        i = i + 1;
    }
    best
}

/// The root loop over `moves` from index `i` on: each child is searched with
/// the root's own flag and a full window, and a score replaces the best so far
/// only when strictly better for the side to move. Yields the chosen move and
/// the leaves evaluated.
pub open spec fn root_from(
    p: PositionView,
    moves: Seq<Move>,
    i: nat,
    depth: nat,
    black: bool,
    best: int,
    chosen: Option<Move>,
) -> (Option<Move>, nat)
    decreases moves.len() - i,
{
    if i >= moves.len() {
        (chosen, 0)
    } else {
        let (v, n) = pruned(after_move(p, moves[i as int]), depth, black, i64::MIN as int, i64::MAX as int);
        let better = if black {
            v > best
        } else {
            v < best
        };
        let (r, k) = root_from(
            p,
            moves,
            i + 1,
            depth,
            black,
            if better {
                v
            } else {
                best
            },
            if better {
                Some(moves[i as int])
            } else {
                chosen
            },
        );
        (r, n + k)
    }
}

/// The move chosen for `p` at `depth`, and the leaves the choice evaluates.
pub open spec fn best_move(p: PositionView, depth: nat) -> (Option<Move>, nat) {
    root_from(p, legal_moves_of(p), 0, depth, p.side == BLACK, sentinel(p.side == BLACK), None)
}

/// The best move for the side to move, searched `depth` plies below each root
/// move, together with the number of leaves evaluated (stopping at `u64::MAX`).
pub fn best_move_with_count(p: &Position, depth: i8) -> (r: (Option<Move>, u64))
    requires
        depth >= 0,
    ensures
        r.0 == best_move(p@, depth as nat).0,
        r.1 == capped(best_move(p@, depth as nat).1 as int),
        r.0 is None <==> status_of(p@) != Status::Ongoing,
        r.0 matches Some(m) ==> legal_moves_of(p@).contains(m),
{
    let black = p.side_to_move() == BLACK;
    let moves = p.legal_moves();
    let ghost d = depth as nat;
    let ghost seen: nat = 0;
    if p.status() != Status::Ongoing {
        return (None, 0);
    }
    let mut best: i64 = if black {
        i64::MIN
    } else {
        i64::MAX
    };
    let mut chosen: Option<Move> = None;
    let mut leaves: u64 = 0;
    let mut i: usize = 0;
    while i < moves.len()
        invariant
            d == depth as nat,
            depth >= 0,
            black == (p@.side == BLACK),
            moves@ == legal_moves_of(p@),
            i <= moves@.len(),
            forall|j: int|
                0 <= j < moves@.len() ==> #[trigger] moves@[j].from < 64 && moves@[j].to < 64
                    && (moves@[j].promotion matches Some(k) ==> k < NUM_KINDS),
            best_move(p@, d) == (
                root_from(p@, moves@, i as nat, d, black, best as int, chosen).0,
                seen + root_from(p@, moves@, i as nat, d, black, best as int, chosen).1,
            ),
            leaves == capped(seen as int),
            i > 0 ==> -score_bound() <= best <= score_bound(),
            i > 0 ==> chosen is Some && legal_moves_of(p@).contains(chosen->0),
            i == 0 ==> best == sentinel(black) && chosen is None,
        decreases moves@.len() - i,
    {
        let mv = moves[i];
        proof {
            assert(legal_moves_of(p@).contains(mv)) by {
                assert(moves@[i as int] == mv);
            }
        }
        let child = p.after(mv);
        let ghost n = pruned(child@, d, black, i64::MIN as int, i64::MAX as int).1;
        let ghost step = root_from(p@, moves@, i as nat, d, black, best as int, chosen);
        let v = alpha_beta(&child, depth, black, i64::MIN, i64::MAX, &mut leaves);
        let better = if black {
            v > best
        } else {
            v < best
        };
        if better {
            best = v;
            chosen = Some(mv);
        }
        proof {
            seen = seen + n;
        }
        assert(step == (
            root_from(p@, moves@, (i + 1) as nat, d, black, best as int, chosen).0,
            n + root_from(p@, moves@, (i + 1) as nat, d, black, best as int, chosen).1,
        ));
        i = i + 1;
    }
    (chosen, leaves)
}

/// The best move for the side to move, searched `depth` plies below each root
/// move; `None` exactly when the game is over.
pub fn find_best_move(p: &Position, depth: i8) -> (r: Option<Move>)
    requires
        depth >= 0,
    ensures
        r == best_move(p@, depth as nat).0,
        r is None <==> status_of(p@) != Status::Ongoing,
        r matches Some(m) ==> legal_moves_of(p@).contains(m),
{
    best_move_with_count(p, depth).0
}

} // verus!
