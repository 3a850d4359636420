use vstd::prelude::*;
use std::str::FromStr;

verus! {

/// Side code of White; side codes follow `chess::Color`.
pub const WHITE: u8 = 0;

/// Side code of Black.
pub const BLACK: u8 = 1;

/// Number of piece kinds; kind codes follow `chess::Piece`:
/// pawn, knight, bishop, rook, queen, king.
pub const NUM_KINDS: u8 = 6;

/// Kind code of the king.
pub const KING: u8 = 5;

/// The outcome that the rules engine reports for a position.
#[derive(Clone, Copy, Debug, PartialEq, Eq, Structural)]
pub enum Status {
    Ongoing,
    Stalemate,
    Checkmate,
}

/// A piece standing on a square: its kind code and its side code.
#[derive(Clone, Copy, Debug, PartialEq, Eq, Structural)]
pub struct Piece {
    pub kind: u8,
    pub side: u8,
}

/// A move as plain values: source and destination square (a1 = 0 ... h8 = 63)
/// and, for a promotion, the kind code of the new piece.
#[derive(Clone, Copy, Debug, PartialEq, Eq, Structural)]
pub struct Move {
    pub from: u8,
    pub to: u8,
    pub promotion: Option<u8>,
}

/// What a position is, as plain values: what stands on each square, the side
/// to move, the castling rights of each side (0 none, 1 king side, 2 queen
/// side, 3 both) and the file of a pawn that can be taken en passant.
pub struct PositionView {
    pub squares: Seq<Option<Piece>>,
    pub side: u8,
    pub castling: (u8, u8),
    pub en_passant: Option<u8>,
}

#[verifier::external_type_specification]
#[verifier::external_body]
pub struct ExBoard(chess::Board);

/// A chess position. The plain fields describe it completely; `board` is the
/// same position in the form the rules engine works on. A position is only
/// ever built from a board, so the two always agree, and every other field of
/// a `chess::Board` (pins, checkers, hash) is derived from these: what the
/// rules engine answers is a function of the view.
pub struct Position {
    squares: Vec<Option<Piece>>,
    side: u8,
    castling: (u8, u8),
    en_passant: Option<u8>,
    board: chess::Board,
}

impl View for Position {
    type V = PositionView;

    closed spec fn view(&self) -> PositionView {
        PositionView {
            squares: self.squares@,
            side: self.side,
            castling: self.castling,
            en_passant: self.en_passant,
        }
    }
}

impl Position {
    #[verifier::type_invariant]
    spec fn inv(self) -> bool {
        self@.wf()
    }

    /// The position that a board-state (FEN) string describes, or `None` where
    /// the string cannot be read, the side to move has no king, or the rules
    /// engine rejects the layout.
    pub fn from_fen(s: &str) -> (r: Option<Position>)
        ensures
            r matches Some(q) ==> fen_position(s@) == Some(q@),
            r is None <==> fen_position(s@) is None,
    {
        match read_fen(s) {
            Some(f) => if f.side_has_king() {
                board_from(f)
            } else {
                None
            },
            None => None,
        }
    }

    /// Whether the game goes on, or ended in stalemate or checkmate.
    pub fn status(&self) -> (r: Status)
        ensures
            r == status_of(self@),
            r == Status::Ongoing <==> legal_moves_of(self@).len() > 0,
    {
        status(self)
    }

    /// The legal moves, in the rules engine's order.
    pub fn legal_moves(&self) -> (r: Vec<Move>)
        ensures
            r@ == legal_moves_of(self@),
            forall|i: int|
                0 <= i < r@.len() ==> #[trigger] r@[i].from < 64 && r@[i].to < 64
                    && (r@[i].promotion matches Some(k) ==> k < NUM_KINDS),
    {
        legal_moves(self)
    }

    /// The position after `m`, which must be one of this position's legal moves.
    pub fn after(&self, m: Move) -> (r: Position)
        requires
            legal_moves_of(self@).contains(m),
            m.from < 64,
            m.to < 64,
            m.promotion matches Some(k) ==> k < NUM_KINDS,
        ensures
            r@ == after_move(self@, m),
    {
        make_move(self, m)
    }

    /// The position after `m`, or `None` where `m` is not a legal move here.
    pub fn play(&self, m: Move) -> (r: Option<Position>)
        ensures
            r is Some <==> legal_moves_of(self@).contains(m),
            r matches Some(q) ==> q@ == after_move(self@, m),
    {
        let moves = self.legal_moves();
        let mut i: usize = 0;
        while i < moves.len()
            invariant
                i <= moves@.len(),
                moves@ == legal_moves_of(self@),
                forall|j: int| 0 <= j < i ==> moves@[j] != m,
                forall|j: int|
                    0 <= j < moves@.len() ==> #[trigger] moves@[j].from < 64 && moves@[j].to < 64
                        && (moves@[j].promotion matches Some(k) ==> k < NUM_KINDS),
            decreases moves@.len() - i,
        {
            if moves[i] == m {
                return Some(make_move(self, m));
            }
            i = i + 1;
        }
        None
    }

    /// The side to move.
    pub fn side_to_move(&self) -> (r: u8)
        ensures
            r == self@.side,
    {
        self.side
    }

    /// What stands on square `sq` (a1 = 0 ... h8 = 63).
    pub fn piece_at(&self, sq: u8) -> (r: Option<Piece>)
        requires
            sq < 64,
        ensures
            r == self@.squares[sq as int],
            r matches Some(pc) ==> pc.kind < NUM_KINDS && pc.side <= BLACK,
    {
        proof {
            use_type_invariant(self);
        }
        self.squares[sq as usize]
    }
}

impl PositionView {
    /// Every square is described and every code is in range.
    pub open spec fn wf(self) -> bool {
        &&& self.squares.len() == 64
        &&& forall|i: int|
            0 <= i < 64 && #[trigger] self.squares[i] is Some ==> self.squares[i]->0.kind
                < NUM_KINDS && self.squares[i]->0.side <= BLACK
        &&& self.side <= BLACK
        &&& self.castling.0 < 4
        &&& self.castling.1 < 4
        &&& self.en_passant matches Some(f) ==> f < 8
    }
}

/// The status of a position, as the rules engine decides it.
pub uninterp spec fn status_of(p: PositionView) -> Status;

/// The legal moves of a position, in the rules engine's order of generation.
pub uninterp spec fn legal_moves_of(p: PositionView) -> Seq<Move>;

/// The position that a legal move leads to.
pub uninterp spec fn after_move(p: PositionView, m: Move) -> PositionView;

/// The layout that a board-state (FEN) string spells out, if it can be read.
pub uninterp spec fn fen_layout(s: Seq<char>) -> Option<PositionView>;

/// The position the rules engine makes of a layout, if it finds it sound.
pub uninterp spec fn board_of_layout(v: PositionView) -> Option<PositionView>;

/// Whether a king of side `side` stands on one of the squares.
pub open spec fn has_king(squares: Seq<Option<Piece>>, side: u8) -> bool {
    exists|i: int| 0 <= i < 64 && squares[i] == Some(Piece { kind: KING, side })
}

/// The position a board-state (FEN) string describes: none where the string
/// cannot be read, where the side to move has no king, or where the rules
/// engine finds the layout unsound.
pub open spec fn fen_position(s: Seq<char>) -> Option<PositionView> {
    match fen_layout(s) {
        Some(v) => if has_king(v.squares, v.side) {
            board_of_layout(v)
        } else {
            None
        },
        None => None,
    }
}

/// Relies on `chess::Board::{piece_on, color_on, side_to_move, castle_rights,
/// en_passant}`: every code they yield is an index below the size of its table.
#[verifier::external_body]
fn position_of(b: chess::Board) -> (r: Position)
    ensures
        r@.wf(),
{
    let squares = chess::ALL_SQUARES.iter().map(|&s| {
        b.piece_on(s).zip(b.color_on(s)).map(|(k, c)| Piece { kind: k.to_index() as u8, side: c.to_index() as u8 })
    }).collect();
    let castling = (
        b.castle_rights(chess::Color::White).to_index() as u8,
        b.castle_rights(chess::Color::Black).to_index() as u8,
    );
    let en_passant = b.en_passant().map(|s| s.get_file().to_index() as u8);
    Position { squares, side: b.side_to_move().to_index() as u8, castling, en_passant, board: b }
}

/// Relies on `chess::Board::status`, which answers `Ongoing` exactly when
/// `MoveGen::new_legal` yields a move.
#[verifier::external_body]
fn status(p: &Position) -> (r: Status)
    ensures
        r == status_of(p@),
        r == Status::Ongoing <==> legal_moves_of(p@).len() > 0,
{
    match p.board.status() {
        chess::BoardStatus::Ongoing => Status::Ongoing,
        chess::BoardStatus::Stalemate => Status::Stalemate,
        chess::BoardStatus::Checkmate => Status::Checkmate,
    }
}

/// Relies on `chess::MoveGen::new_legal`: the legal moves, in its order; each
/// names squares below 64 and a promotion kind below six.
#[verifier::external_body]
fn legal_moves(p: &Position) -> (r: Vec<Move>)
    ensures
        r@ == legal_moves_of(p@),
        forall|i: int|
            0 <= i < r@.len() ==> #[trigger] r@[i].from < 64 && r@[i].to < 64
                && (r@[i].promotion matches Some(k) ==> k < NUM_KINDS),
{
    chess::MoveGen::new_legal(&p.board).map(|m| Move {
        from: m.get_source().to_int(),
        to: m.get_dest().to_int(),
        promotion: m.get_promotion().map(|k| k.to_index() as u8),
    }).collect()
}

/// Relies on `chess::Board::make_move_new`, which panics unless a piece stands
/// on the source square: only legal moves are handed to it.
#[verifier::external_body]
fn make_move(p: &Position, m: Move) -> (r: Position)
    requires
        legal_moves_of(p@).contains(m),
        m.from < 64,
        m.to < 64,
        m.promotion matches Some(k) ==> k < NUM_KINDS,
    ensures
        r@ == after_move(p@, m),
        r@.wf(),
{
    let promotion = m.promotion.map(|k| chess::ALL_PIECES[k as usize]);
    let cm = chess::ChessMove::new(chess::ALL_SQUARES[m.from as usize], chess::ALL_SQUARES[m.to as usize], promotion);
    position_of(p.board.make_move_new(cm))
}

#[verifier::external_type_specification]
#[verifier::external_body]
pub struct ExBoardBuilder(chess::BoardBuilder);

/// A board-state string as read, before the rules engine has checked that it
/// is a position: the plain fields, and the same in the engine's builder form.
struct FenBoard {
    squares: Vec<Option<Piece>>,
    side: u8,
    castling: (u8, u8),
    en_passant: Option<u8>,
    builder: chess::BoardBuilder,
}

impl View for FenBoard {
    type V = PositionView;

    closed spec fn view(&self) -> PositionView {
        PositionView {
            squares: self.squares@,
            side: self.side,
            castling: self.castling,
            en_passant: self.en_passant,
        }
    }
}

impl FenBoard {
    /// Whether the side to move has a king on the board.
    fn side_has_king(&self) -> (r: bool)
        requires
            self@.wf(),
        ensures
            r == has_king(self@.squares, self@.side),
    {
        let mut i: usize = 0;
        while i < 64
            invariant
                i <= 64,
                self@.wf(),
                forall|j: int|
                    0 <= j < i ==> #[trigger] self@.squares[j] != Some(
                        Piece { kind: KING, side: self@.side },
                    ),
            decreases 64 - i,
        {
            if let Some(pc) = self.squares[i] {
                if pc.kind == KING && pc.side == self.side {
                    assert(self@.squares[i as int] == Some(Piece { kind: KING, side: self@.side }));
                    return true;
                }
            }
            i = i + 1;
        }
        false
    }
}

/// Relies on `chess::BoardBuilder::from_str`: the layout a FEN string gives,
/// or an error; every code it yields is below the size of its table.
#[verifier::external_body]
fn read_fen(s: &str) -> (r: Option<FenBoard>)
    ensures
        r matches Some(f) ==> fen_layout(s@) == Some(f@) && f@.wf(),
        r is None <==> fen_layout(s@) is None,
{
    match chess::BoardBuilder::from_str(s) {
        Ok(b) => Some(FenBoard {
            squares: chess::ALL_SQUARES.iter().map(|&q| b[q].map(|(k, c)| Piece { kind: k.to_index() as u8, side: c.to_index() as u8 })).collect(),
            side: b.get_side_to_move().to_index() as u8,
            castling: (b.get_castle_rights(chess::Color::White).to_index() as u8, b.get_castle_rights(chess::Color::Black).to_index() as u8),
            en_passant: b.get_en_passant().map(|q| q.get_file().to_index() as u8),
            builder: b,
        }),
        Err(_) => None,
    }
}

/// Relies on `chess::Board::try_from(BoardBuilder)`: the board a layout
/// describes, or an error where the crate finds it unsound. The crate computes
/// pins from the king of the side to move before it checks anything, reading
/// its tables unchecked at that king's square, so that king must be there.
#[verifier::external_body]
fn board_from(f: FenBoard) -> (r: Option<Position>)
    requires
        has_king(f@.squares, f@.side),
    ensures
        r matches Some(q) ==> board_of_layout(f@) == Some(q@) && q@.wf(),
        r is None <==> board_of_layout(f@) is None,
{
    match chess::Board::try_from(f.builder) {
        Ok(b) => Some(position_of(b)),
        Err(_) => None,
    }
}

} // verus!
