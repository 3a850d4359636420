use vstd::prelude::*;
use crate::position::{Piece, Position, PositionView, Status, status_of, BLACK, WHITE, NUM_KINDS};

verus! {

/// The score of a checkmate: positive when White is mated, negative when Black is.
pub const MATE_SCORE: i64 = 20000;

/// Material value of each piece kind, by kind code.
pub const PIECE_VALUES: [i16; 6] = [100, 320, 330, 500, 900, 100];

/// Positional bonus of each piece kind on each square, by kind code and then
/// square index (a1 = 0 ... h8 = 63), seen from White's side.
pub const PIECE_SQUARES: [[i8; 64]; 6] = [
    // pawn, rank 1 first
    [
        0, 0, 0, 0, 0, 0, 0, 0,
        5, 10, 10, -20, -20, 10, 10, 5,
        5, -5, -10, 0, 0, -10, -5, 5,
        0, 0, 0, 20, 20, 0, 0, 0,
        5, 5, 10, 25, 25, 10, 5, 5,
        10, 10, 20, 30, 30, 20, 10, 10,
        50, 50, 50, 50, 50, 50, 50, 50,
        0, 0, 0, 0, 0, 0, 0, 0,
    ],
    // knight, rank 1 first
    [
        -50, -40, -30, -30, -30, -30, -40, -50,
        -40, -20, 0, 5, 5, 0, -20, -40,
        -30, 5, 10, 15, 15, 10, 5, -30,
        -30, 0, 15, 20, 20, 15, 0, -30,
        -30, 5, 15, 20, 20, 15, 5, -30,
        -30, 0, 10, 15, 15, 10, 0, -30,
        -40, -20, 0, 0, 0, 0, -20, -40,
        -50, -40, -30, -30, -30, -30, -40, -50,
    ],
    // bishop, rank 1 first
    [
        -20, -10, -10, -10, -10, -10, -10, -20,
        -10, 5, 0, 0, 0, 0, 5, -10,
        -10, 10, 10, 10, 10, 10, 10, -10,
        -10, 0, 10, 10, 10, 10, 0, -10,
        -10, 5, 5, 10, 10, 5, 5, -10,
        -10, 0, 5, 10, 10, 5, 0, -10,
        -10, 0, 0, 0, 0, 0, 0, -10,
        -20, -10, -10, -10, -10, -10, -10, -20,
    ],
    // rook, rank 1 first
    [
        0, 0, 0, 5, 5, 0, 0, 0,
        -5, 0, 0, 0, 0, 0, 0, -5,
        -5, 0, 0, 0, 0, 0, 0, -5,
        -5, 0, 0, 0, 0, 0, 0, -5,
        -5, 0, 0, 0, 0, 0, 0, -5,
        -5, 0, 0, 0, 0, 0, 0, -5,
        5, 10, 10, 10, 10, 10, 10, 5,
        0, 0, 0, 0, 0, 0, 0, 0,
    ],
    // queen, rank 1 first
    [
        -20, -10, -10, -5, -5, -10, -10, -20,
        -10, 0, 5, 0, 0, 0, 0, -10,
        -10, 5, 5, 5, 5, 5, 0, -10,
        0, 0, 5, 5, 5, 5, 0, -5,
        -5, 0, 5, 5, 5, 5, 0, -5,
        -10, 0, 5, 5, 5, 5, 0, -10,
        -10, 0, 0, 0, 0, 0, 0, -10,
        -20, -10, -10, -5, -5, -10, -10, -20,
    ],
    // king, rank 1 first
    [
        20, 30, 10, 0, 0, 10, 30, 20,
        20, 20, 0, 0, 0, 0, 20, 20,
        -10, -20, -20, -20, -20, -20, -20, -10,
        -20, -30, -30, -40, -40, -30, -30, -20,
        -30, -40, -40, -50, -50, -40, -40, -30,
        -30, -40, -40, -50, -50, -40, -40, -30,
        -30, -40, -40, -50, -50, -40, -40, -30,
        -30, -40, -40, -50, -50, -40, -40, -30,
    ],
];

/// The table square a piece reads its bonus at: its own square for White, the
/// mirrored square `63 - sq` for Black.
pub open spec fn table_square(side: u8, sq: int) -> int {
    if side == WHITE {
        sq
    } else {
        63 - sq
    }
}

/// What a piece on square `sq` adds to the evaluation: minus its material value
/// and its positional bonus, whatever its side.
pub open spec fn piece_score(sq: int, pc: Option<Piece>) -> int {
    match pc {
        Some(p) => -(PIECE_VALUES@[p.kind as int] + PIECE_SQUARES@[p.kind as int]@[table_square(
            p.side,
            sq,
        )]),
        None => 0,
    }
}

/// The sum of the scores of the pieces on the first `n` squares.
pub open spec fn material(squares: Seq<Option<Piece>>, n: int) -> int
    decreases n,
{
    if n <= 0 {
        0
    } else {
        material(squares, n - 1) + piece_score(n - 1, squares[n - 1])
    }
}

/// The static evaluation of a position; larger is better for Black.
pub open spec fn evaluation(p: PositionView) -> int {
    match status_of(p) {
        Status::Checkmate => if p.side == WHITE {
            MATE_SCORE as int
        } else {
            -MATE_SCORE
        },
        Status::Stalemate => 0,
        Status::Ongoing => material(p.squares, 64),
    }
}

proof fn lemma_piece_score_bound(sq: int, pc: Option<Piece>)
    ensures
        -32896 <= piece_score(sq, pc) <= 32896,
{
    if let Some(p) = pc {
        let v = PIECE_VALUES@[p.kind as int];
        let b = PIECE_SQUARES@[p.kind as int]@[table_square(p.side, sq)];
        assert(-32768 <= v <= 32767);
        assert(-128 <= b <= 127);
    }
}

proof fn lemma_material_bound(squares: Seq<Option<Piece>>, n: int)
    requires
        0 <= n,
    ensures
        -32896 * n <= material(squares, n) <= 32896 * n,
    decreases n,
{
    if n > 0 {
        lemma_material_bound(squares, n - 1);
        lemma_piece_score_bound(n - 1, squares[n - 1]);
    }
}

/// Every evaluation lies well inside the range of `i64`.
pub proof fn lemma_evaluation_bound(p: PositionView)
    ensures
        -2105344 <= evaluation(p) <= 2105344,
{
    lemma_material_bound(p.squares, 64);
}

/// A stalemate evaluates to zero.
pub proof fn lemma_stalemate_is_zero(p: PositionView)
    requires
        status_of(p) == Status::Stalemate,
    ensures
        evaluation(p) == 0,
{
}

/// A checkmate evaluates to the mate score, positive when White is the side mated.
pub proof fn lemma_checkmate_score(p: PositionView)
    requires
        status_of(p) == Status::Checkmate,
    ensures
        p.side == WHITE ==> evaluation(p) == 20000,
        p.side != WHITE ==> evaluation(p) == -20000,
{
}

/// The score of the piece on square `sq`.
fn square_score(sq: usize, pc: Option<Piece>) -> (r: i64)
    requires
        sq < 64,
        pc matches Some(p) ==> p.kind < NUM_KINDS,
    ensures
        r == piece_score(sq as int, pc),
{
    match pc {
        Some(p) => {
            let idx = if p.side == WHITE {
                sq
            } else {
                63 - sq
            };
            let value = PIECE_VALUES[p.kind as usize] as i64;
            let bonus = PIECE_SQUARES[p.kind as usize][idx] as i64;
            -(value + bonus)
        },
        None => 0,
    }
}

/// The static evaluation of a position: the mate score for a checkmate, zero
/// for a stalemate, else the sum of the pieces' scores.
pub fn evaluate(p: &Position) -> (r: i64)
    ensures
        r == evaluation(p@),
{
    match p.status() {
        Status::Checkmate => if p.side_to_move() == WHITE {
            MATE_SCORE
        } else {
            -MATE_SCORE
        },
        Status::Stalemate => 0,
        Status::Ongoing => {
            let mut total: i64 = 0;
            let mut sq: usize = 0;
            while sq < 64
                invariant
                    sq <= 64,
                    total == material(p@.squares, sq as int),
                decreases 64 - sq,
            {
                proof {
                    lemma_material_bound(p@.squares, sq as int);
                    lemma_piece_score_bound(sq as int, p@.squares[sq as int]);
                }
                let pc = p.piece_at(sq as u8);
                total = total + square_score(sq, pc);
                sq = sq + 1;
            }
            total
        },
    }
}

proof fn lemma_square_cases(i: int)
    requires
        0 <= i < 64,
    ensures
        i == 0 || i == 1 || i == 2 || i == 3 || i == 4 || i == 5 || i == 6 || i == 7 || i == 8 || i == 9 || i == 10 || i == 11 || i == 12 || i == 13 || i == 14 || i == 15 || i == 16 || i == 17 || i == 18 || i == 19 || i == 20 || i == 21 || i == 22 || i == 23 || i == 24 || i == 25 || i == 26 || i == 27 || i == 28 || i == 29 || i == 30 || i == 31 || i == 32 || i == 33 || i == 34 || i == 35 || i == 36 || i == 37 || i == 38 || i == 39 || i == 40 || i == 41 || i == 42 || i == 43 || i == 44 || i == 45 || i == 46 || i == 47 || i == 48 || i == 49 || i == 50 || i == 51 || i == 52 || i == 53 || i == 54 || i == 55 || i == 56 || i == 57 || i == 58 || i == 59 || i == 60 || i == 61 || i == 62 || i == 63,
{
}

/// No positional bonus is below -50.
proof fn lemma_bonus_floor(kind: int, sq: int)
    requires
        0 <= kind < 6,
        0 <= sq < 64,
    ensures
        PIECE_SQUARES@[kind]@[sq] >= -50,
{
    lemma_square_cases(sq);
}

/// Every piece, of either side, takes a positive amount off the evaluation:
/// each material value exceeds the largest penalty among the bonuses.
pub proof fn lemma_piece_score_negative(sq: int, pc: Piece)
    requires
        0 <= sq < 64,
        pc.kind < NUM_KINDS,
        pc.side <= BLACK,
    ensures
        piece_score(sq, Some(pc)) < 0,
{
    lemma_bonus_floor(pc.kind as int, table_square(pc.side, sq));
    assert(PIECE_VALUES@[pc.kind as int] >= 100);
}

proof fn lemma_more_pieces_lower_material_upto(
    fewer: Seq<Option<Piece>>,
    more: Seq<Option<Piece>>,
    n: int,
)
    requires
        0 <= n <= 64,
        forall|i: int|
            0 <= i < 64 && #[trigger] more[i] is Some ==> more[i]->0.kind < NUM_KINDS
                && more[i]->0.side <= BLACK,
        forall|i: int| 0 <= i < 64 && #[trigger] fewer[i] is Some ==> more[i] == fewer[i],
    ensures
        material(more, n) <= material(fewer, n),
    decreases n,
{
    if n > 0 {
        lemma_more_pieces_lower_material_upto(fewer, more, n - 1);
        if let Some(pc) = more[n - 1] {
            lemma_piece_score_negative(n - 1, pc);
        }
    }
}

/// Adding pieces never raises the sum of the pieces' scores: where every piece
/// of `fewer` stands on the same square in `more`, `more` sums no higher.
pub proof fn lemma_more_pieces_lower_material(fewer: Seq<Option<Piece>>, more: Seq<Option<Piece>>)
    requires
        forall|i: int|
            0 <= i < 64 && #[trigger] more[i] is Some ==> more[i]->0.kind < NUM_KINDS
                && more[i]->0.side <= BLACK,
        forall|i: int| 0 <= i < 64 && #[trigger] fewer[i] is Some ==> more[i] == fewer[i],
    ensures
        material(more, 64) <= material(fewer, 64),
{
    lemma_more_pieces_lower_material_upto(fewer, more, 64);
}

} // verus!
