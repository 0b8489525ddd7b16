use rust_chess::board::piece::Piece;
use rust_chess::board::position::Position;
use rust_chess::board::Board;
use rust_chess::chess::chess_position::ChessPosition;
use rust_chess::chess::color::Color;
use rust_chess::chess::pieces::bishop::Bishop;
use rust_chess::chess::pieces::king::King;
use rust_chess::chess::pieces::knight::Knight;
use rust_chess::chess::pieces::pawn::Pawn;
use rust_chess::chess::pieces::queen::Queen;
use rust_chess::chess::pieces::rook::Rook;
use rust_chess::error::ChessErrorKind;

fn count(m: &Vec<Vec<bool>>) -> usize {
    m.iter().map(|r| r.iter().filter(|&&x| x).count()).sum()
}

#[test]
fn board_rejects_empty_dimensions() {
    assert_eq!(Board::new(0, 8).err().unwrap().kind(), ChessErrorKind::InvalidDimensions);
    assert_eq!(Board::new(8, 0).err().unwrap().kind(), ChessErrorKind::InvalidDimensions);
    let b = Board::new(3, 5).ok().unwrap();
    assert_eq!(b.rows(), 3);
    assert_eq!(b.cols(), 5);
    assert!(!b.there_is_a_piece(Position::new(2, 4)));
}

#[test]
fn board_place_and_remove() {
    let mut b = Board::new(8, 8).ok().unwrap();
    let p = Position::new(3, 4);
    let rook = Piece::Rook(Rook::new(Color::White));
    assert!(b.place_piece(rook, p).is_ok());
    assert!(b.there_is_a_piece(p));
    assert_eq!(b.piece(p), Some(&rook));
    let err = b.place_piece(Piece::Pawn(Pawn::new(Color::Black)), p).err().unwrap();
    assert_eq!(err.kind(), ChessErrorKind::OccupiedSquare);
    assert_eq!(b.piece(p), Some(&rook));
    assert_eq!(b.remove_piece(p), Some(rook));
    assert_eq!(b.remove_piece(p), None);
    assert!(b.piece(p).is_none());
}

#[test]
fn board_position_exists() {
    let b = Board::new(8, 8).ok().unwrap();
    assert!(b.position_exists(Position::new(7, 7)));
    assert!(!b.position_exists(Position::new(8, 0)));
    assert!(!b.position_exists(Position::new(0, 8)));
}

#[test]
fn rook_moves_stop_at_pieces() {
    let mut b = Board::new(8, 8).ok().unwrap();
    let at = Position::new(4, 4);
    let rook = Rook::new(Color::White);
    assert_eq!(count(&rook.possible_moves(&b, at)), 14);
    b.place_piece(Piece::Pawn(Pawn::new(Color::White)), Position::new(4, 6)).unwrap();
    b.place_piece(Piece::Pawn(Pawn::new(Color::Black)), Position::new(2, 4)).unwrap();
    let m = rook.possible_moves(&b, at);
    assert!(m[4][5]);
    assert!(!m[4][6]);
    assert!(!m[4][7]);
    assert!(m[3][4]);
    assert!(m[2][4]);
    assert!(!m[1][4]);
    assert_eq!(count(&m), 4 + 3 + 1 + 2);
}

#[test]
fn bishop_and_queen_moves() {
    let b = Board::new(8, 8).ok().unwrap();
    let at = Position::new(4, 4);
    assert_eq!(count(&Bishop::new(Color::Black).possible_moves(&b, at)), 13);
    assert_eq!(count(&Queen::new(Color::Black).possible_moves(&b, at)), 27);
}

#[test]
fn knight_moves_from_corner_and_centre() {
    let b = Board::new(8, 8).ok().unwrap();
    let k = Knight::new(Color::White);
    let m = k.possible_moves(&b, Position::new(7, 0));
    assert_eq!(count(&m), 2);
    assert!(m[5][1]);
    assert!(m[6][2]);
    assert_eq!(count(&k.possible_moves(&b, Position::new(4, 4))), 8);
}

#[test]
fn king_steps_and_castling_squares() {
    let mut b = Board::new(8, 8).ok().unwrap();
    let king = King::new(Color::White);
    let at = Position::new(7, 4);
    assert_eq!(count(&king.possible_moves(&b, at, false)), 5);
    b.place_piece(Piece::Rook(Rook::new(Color::White)), Position::new(7, 7)).unwrap();
    b.place_piece(Piece::Rook(Rook::new(Color::White)), Position::new(7, 0)).unwrap();
    let m = king.possible_moves(&b, at, false);
    assert!(m[7][6]);
    assert!(m[7][2]);
    let in_check = king.possible_moves(&b, at, true);
    assert!(!in_check[7][6]);
    assert!(!in_check[7][2]);
    let moved = King { color: Color::White, move_count: 2 };
    let m2 = moved.possible_moves(&b, at, false);
    assert!(!m2[7][6]);
    assert!(!m2[7][2]);
}

#[test]
fn pawn_moves_and_captures() {
    let mut b = Board::new(8, 8).ok().unwrap();
    let pawn = Pawn::new(Color::White);
    let at = Position::new(6, 4);
    let m = pawn.possible_moves(&b, at, None);
    assert!(m[5][4] && m[4][4]);
    assert_eq!(count(&m), 2);
    b.place_piece(Piece::Knight(Knight::new(Color::Black)), Position::new(5, 3)).unwrap();
    b.place_piece(Piece::Knight(Knight::new(Color::White)), Position::new(5, 5)).unwrap();
    let m = pawn.possible_moves(&b, at, None);
    assert!(m[5][3]);
    assert!(!m[5][5]);
    let moved = Pawn { color: Color::White, move_count: 1 };
    assert!(!moved.possible_moves(&b, at, None)[4][4]);
}

#[test]
fn pawn_en_passant_square() {
    let b = Board::new(8, 8).ok().unwrap();
    let pawn = Pawn { color: Color::Black, move_count: 3 };
    let m = pawn.possible_moves(&b, Position::new(4, 3), Some(Position::new(4, 4)));
    assert!(m[5][4]);
    let far = pawn.possible_moves(&b, Position::new(4, 3), Some(Position::new(4, 6)));
    assert!(!far[5][6]);
}

#[test]
fn piece_counters_and_symbols() {
    let mut p = Piece::Queen(Queen::new(Color::Black));
    assert_eq!(p.move_count(), 0);
    p.increase_move_count();
    p.increase_move_count();
    assert_eq!(p.move_count(), 2);
    p.decrease_move_count();
    assert_eq!(p.move_count(), 1);
    assert_eq!(p.symbol(), '♛');
    assert_eq!(p.symbol_text(), "♛");
    assert_eq!(Piece::King(King::new(Color::White)).symbol_text(), "♔");
    assert_eq!(p.color(), Color::Black);
    assert!(Color::White.is_white() && !Color::White.is_black());
}

#[test]
fn opponent_piece_detection() {
    let mut b = Board::new(8, 8).ok().unwrap();
    b.place_piece(Piece::Pawn(Pawn::new(Color::Black)), Position::new(1, 1)).unwrap();
    let white = Piece::Rook(Rook::new(Color::White));
    let black = Piece::Rook(Rook::new(Color::Black));
    assert!(white.is_there_opponent_piece(Position::new(1, 1), &b));
    assert!(!black.is_there_opponent_piece(Position::new(1, 1), &b));
    assert!(!white.is_there_opponent_piece(Position::new(2, 2), &b));
}

#[test]
fn chess_position_conversions() {
    let e2 = ChessPosition::new('e', 2).ok().unwrap();
    assert_eq!(e2.to_position(), Position::new(6, 4));
    let a8 = ChessPosition::from_position(Position::new(0, 0));
    assert_eq!(a8.col, 'a');
    assert_eq!(a8.row, 8);
    let h1 = ChessPosition::from_position(Position::new(7, 7));
    assert_eq!((h1.col, h1.row), ('h', 1));
    assert_eq!(ChessPosition::new('i', 1).err().unwrap().kind(), ChessErrorKind::ParseError);
    assert_eq!(ChessPosition::new('a', 9).err().unwrap().kind(), ChessErrorKind::ParseError);
    assert_eq!(ChessPosition::new('a', 0).err().unwrap().kind(), ChessErrorKind::ParseError);
}

#[test]
fn chess_position_parsing() {
    let p = ChessPosition::parse("e2").ok().unwrap();
    assert_eq!((p.col, p.row), ('e', 2));
    let q = ChessPosition::parse("  h8\n").ok().unwrap();
    assert_eq!((q.col, q.row), ('h', 8));
    for bad in ["", "e", "e22", "i1", "a0", "a9", "E2", "2e", "é2"] {
        assert_eq!(ChessPosition::parse(bad).err().unwrap().kind(), ChessErrorKind::ParseError, "{}", bad);
    }
    assert!(ChessPosition::from_trimmed(" e2").is_err());
}

#[test]
fn chess_position_from_str() {
    let p: ChessPosition = "c7".parse().ok().unwrap();
    assert_eq!(p.to_position(), Position::new(1, 2));
    assert!("c".parse::<ChessPosition>().is_err());
}
