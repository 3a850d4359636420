use scacchi::position::{BLACK, WHITE};
use scacchi::{Move, Piece, Position, Status};

const START: &str = "rnbqkbnr/pppppppp/8/8/8/8/PPPPPPPP/RNBQKBNR w KQkq - 0 1";

#[test]
fn bad_fen_is_rejected() {
    assert!(Position::from_fen("not a position").is_none());
    assert!(Position::from_fen("").is_none());
}

#[test]
fn start_position_contents() {
    let p = Position::from_fen(START).unwrap();
    assert_eq!(p.side_to_move(), WHITE);
    assert_eq!(p.status(), Status::Ongoing);
    assert_eq!(p.piece_at(0), Some(Piece { kind: 3, side: WHITE }));
    assert_eq!(p.piece_at(4), Some(Piece { kind: 5, side: WHITE }));
    assert_eq!(p.piece_at(59), Some(Piece { kind: 4, side: BLACK }));
    assert_eq!(p.piece_at(28), None);
    assert_eq!(p.legal_moves().len(), 20);
}

#[test]
fn playing_a_move_changes_the_position() {
    let p = Position::from_fen(START).unwrap();
    let e4 = Move { from: 12, to: 28, promotion: None };
    let q = p.play(e4).expect("legal");
    assert_eq!(q.side_to_move(), BLACK);
    assert_eq!(q.piece_at(12), None);
    assert_eq!(q.piece_at(28), Some(Piece { kind: 0, side: WHITE }));
    assert_eq!(q.legal_moves().len(), 20);
    let r = q.after(Move { from: 52, to: 36, promotion: None });
    assert_eq!(r.side_to_move(), WHITE);
    assert_eq!(r.piece_at(36), Some(Piece { kind: 0, side: BLACK }));
}

#[test]
fn illegal_move_is_refused() {
    let p = Position::from_fen(START).unwrap();
    assert!(p.play(Move { from: 12, to: 36, promotion: None }).is_none());
    assert!(p.play(Move { from: 28, to: 36, promotion: None }).is_none());
}

#[test]
fn promotion_moves_are_listed() {
    let p = Position::from_fen("7k/P7/8/8/8/8/8/7K w - - 0 1").unwrap();
    let moves = p.legal_moves();
    let promos: Vec<Move> = moves.iter().copied().filter(|m| m.from == 48).collect();
    assert_eq!(promos.len(), 4);
    let q = p.play(Move { from: 48, to: 56, promotion: Some(4) }).expect("legal");
    assert_eq!(q.piece_at(56), Some(Piece { kind: 4, side: WHITE }));
}

#[test]
fn fen_without_king_to_move_is_rejected() {
    assert!(Position::from_fen("8/8/8/8/8/8/8/8 w - - 0 1").is_none());
    assert!(Position::from_fen("k7/8/8/8/8/8/8/8 w - - 0 1").is_none());
    assert!(Position::from_fen("K7/8/8/8/8/8/8/8 w - - 0 1").is_none());
    assert!(Position::from_fen("K7/8/8/8/8/8/8/7k w - - 0 1").is_some());
}
