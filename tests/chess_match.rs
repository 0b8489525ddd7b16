use rust_chess::board::piece::Piece;
use rust_chess::board::position::Position;
use rust_chess::chess::chess_position::ChessPosition;
use rust_chess::chess::color::Color;
use rust_chess::chess::ChessMatch;
use rust_chess::error::ChessErrorKind;
use rust_chess::network::GameMessage;

fn sq(s: &str) -> ChessPosition {
    ChessPosition::parse(s).ok().unwrap()
}

fn mv(m: &mut ChessMatch, a: &str, b: &str) -> Option<Piece> {
    match m.perform_chess_move(sq(a), sq(b)) {
        Ok(c) => c,
        Err(e) => panic!("{}{} refused: {:?}", a, b, e),
    }
}

fn err(m: &mut ChessMatch, a: &str, b: &str) -> ChessErrorKind {
    m.perform_chess_move(sq(a), sq(b)).err().unwrap().kind()
}

fn at(m: &ChessMatch, s: &str) -> Option<Piece> {
    m.board().piece(sq(s).to_position()).copied()
}

fn snapshot(m: &ChessMatch) -> Vec<Option<Piece>> {
    let mut v = Vec::new();
    for r in 0..8 {
        for c in 0..8 {
            v.push(m.board().piece(Position::new(r, c)).copied());
        }
    }
    v
}

#[test]
fn fresh_match_setup() {
    let m = ChessMatch::new();
    let mut white = 0;
    let mut black = 0;
    for p in snapshot(&m).into_iter().flatten() {
        if p.color() == Color::White {
            white += 1;
        } else {
            black += 1;
        }
    }
    assert_eq!(white, 16);
    assert_eq!(black, 16);
    assert_eq!(m.get_current_player(), Color::White);
    assert_eq!(m.get_turn(), 1);
    assert!(!m.check());
    assert!(!m.check_mate());
    assert_eq!(m.get_en_passant_vulnerable(), None);
    assert!(matches!(at(&m, "e1"), Some(Piece::King(k)) if k.color == Color::White));
    assert!(matches!(at(&m, "d8"), Some(Piece::Queen(q)) if q.color == Color::Black));
    assert!(matches!(at(&m, "a1"), Some(Piece::Rook(_))));
    assert!(matches!(at(&m, "g8"), Some(Piece::Knight(_))));
    assert!(matches!(at(&m, "c1"), Some(Piece::Bishop(_))));
    assert!(matches!(at(&m, "h7"), Some(Piece::Pawn(p)) if p.color == Color::Black));
    assert!(at(&m, "e4").is_none());
}

#[test]
fn simple_moves_advance_turn() {
    let mut m = ChessMatch::new();
    assert_eq!(mv(&mut m, "e2", "e4"), None);
    assert_eq!(m.get_turn(), 2);
    assert_eq!(m.get_current_player(), Color::Black);
    assert!(at(&m, "e2").is_none());
    assert_eq!(at(&m, "e4").unwrap().move_count(), 1);
    mv(&mut m, "b8", "c6");
    assert_eq!(m.get_turn(), 3);
    assert_eq!(m.get_current_player(), Color::White);
}

#[test]
fn move_errors() {
    let mut m = ChessMatch::new();
    assert_eq!(err(&mut m, "e3", "e4"), ChessErrorKind::NoPieceAtSource);
    assert_eq!(err(&mut m, "e7", "e5"), ChessErrorKind::NotYourPiece);
    assert_eq!(err(&mut m, "a1", "a3"), ChessErrorKind::NoLegalMoves);
    assert_eq!(err(&mut m, "e2", "e5"), ChessErrorKind::IllegalTarget);
    let outside = ChessPosition { col: 'z', row: 9 };
    assert_eq!(
        m.perform_chess_move(sq("e2"), outside).err().unwrap().kind(),
        ChessErrorKind::TargetOutOfBounds
    );
    assert_eq!(m.get_turn(), 1);
    assert_eq!(m.get_current_player(), Color::White);
}

#[test]
fn text_moves() {
    let mut m = ChessMatch::new();
    assert_eq!(m.play_move("x9", "e4").err().unwrap().kind(), ChessErrorKind::ParseError);
    assert_eq!(m.play_move("e2", "e44").err().unwrap().kind(), ChessErrorKind::ParseError);
    assert_eq!(m.get_turn(), 1);
    assert!(m.play_move(" e2 ", "e4").is_ok());
    assert_eq!(m.get_current_player(), Color::Black);
}

#[test]
fn en_passant_window_opens_and_closes() {
    let mut m = ChessMatch::new();
    mv(&mut m, "e2", "e4");
    assert_eq!(m.get_en_passant_vulnerable(), Some(sq("e4").to_position()));
    mv(&mut m, "a7", "a6");
    assert_eq!(m.get_en_passant_vulnerable(), None);
    mv(&mut m, "g1", "f3");
    assert_eq!(m.get_en_passant_vulnerable(), None);
}

#[test]
fn en_passant_capture() {
    let mut m = ChessMatch::new();
    mv(&mut m, "e2", "e4");
    mv(&mut m, "a7", "a6");
    mv(&mut m, "e4", "e5");
    mv(&mut m, "d7", "d5");
    assert_eq!(m.get_en_passant_vulnerable(), Some(sq("d5").to_position()));
    let taken = mv(&mut m, "e5", "d6").unwrap();
    assert!(matches!(taken, Piece::Pawn(p) if p.color == Color::Black));
    assert!(at(&m, "d5").is_none());
    assert!(matches!(at(&m, "d6"), Some(Piece::Pawn(p)) if p.color == Color::White));
    assert_eq!(m.captured_pieces().len(), 1);
}

#[test]
fn en_passant_expires_after_one_move() {
    let mut m = ChessMatch::new();
    mv(&mut m, "e2", "e4");
    mv(&mut m, "a7", "a6");
    mv(&mut m, "e4", "e5");
    mv(&mut m, "d7", "d5");
    mv(&mut m, "h2", "h3");
    mv(&mut m, "h7", "h6");
    assert_eq!(err(&mut m, "e5", "d6"), ChessErrorKind::IllegalTarget);
}

fn open_kingside() -> ChessMatch {
    let mut m = ChessMatch::new();
    mv(&mut m, "e2", "e4");
    mv(&mut m, "e7", "e5");
    mv(&mut m, "g1", "f3");
    mv(&mut m, "b8", "c6");
    mv(&mut m, "f1", "c4");
    mv(&mut m, "g8", "f6");
    m
}

#[test]
fn castling_kingside_moves_rook() {
    let mut m = open_kingside();
    mv(&mut m, "e1", "g1");
    assert!(matches!(at(&m, "g1"), Some(Piece::King(_))));
    assert!(matches!(at(&m, "f1"), Some(Piece::Rook(r)) if r.move_count == 1));
    assert!(at(&m, "h1").is_none());
    assert!(at(&m, "e1").is_none());
}

#[test]
fn castling_rights_lost_after_king_moves_back() {
    let mut m = open_kingside();
    mv(&mut m, "e1", "e2");
    mv(&mut m, "a7", "a6");
    mv(&mut m, "e2", "e1");
    mv(&mut m, "a6", "a5");
    assert_eq!(at(&m, "e1").unwrap().move_count(), 2);
    assert_eq!(err(&mut m, "e1", "g1"), ChessErrorKind::IllegalTarget);
}

#[test]
fn castling_rights_lost_after_rook_moves_back() {
    let mut m = open_kingside();
    mv(&mut m, "h1", "g1");
    mv(&mut m, "a7", "a6");
    mv(&mut m, "g1", "h1");
    mv(&mut m, "a6", "a5");
    assert_eq!(err(&mut m, "e1", "g1"), ChessErrorKind::IllegalTarget);
}

#[test]
fn pinned_piece_cannot_move() {
    let mut m = ChessMatch::new();
    mv(&mut m, "e2", "e4");
    mv(&mut m, "e7", "e5");
    mv(&mut m, "a2", "a3");
    mv(&mut m, "f8", "b4");
    let before = snapshot(&m);
    let turn = m.get_turn();
    assert_eq!(err(&mut m, "d2", "d3"), ChessErrorKind::SelfCheck);
    assert_eq!(snapshot(&m), before);
    assert_eq!(m.get_turn(), turn);
    assert_eq!(m.get_current_player(), Color::White);
    assert!(m.captured_pieces().is_empty());
}

#[test]
fn fools_mate() {
    let mut m = ChessMatch::new();
    mv(&mut m, "f2", "f3");
    mv(&mut m, "e7", "e5");
    mv(&mut m, "g2", "g4");
    assert_eq!(m.get_turn(), 4);
    mv(&mut m, "d8", "h4");
    assert!(m.check());
    assert!(m.check_mate());
    assert_eq!(m.get_turn(), 4);
    assert_eq!(m.get_current_player(), Color::Black);
    assert_eq!(err(&mut m, "a2", "a3"), ChessErrorKind::GameOver);
}

#[test]
fn check_without_mate() {
    let mut m = ChessMatch::new();
    mv(&mut m, "e2", "e4");
    mv(&mut m, "f7", "f6");
    mv(&mut m, "d1", "h5");
    assert!(m.check());
    assert!(!m.check_mate());
    assert_eq!(m.get_current_player(), Color::Black);
    assert_eq!(err(&mut m, "a7", "a6"), ChessErrorKind::SelfCheck);
    mv(&mut m, "g7", "g6");
    assert!(!m.check());
}

#[test]
fn captures_are_recorded_and_shown() {
    let mut m = ChessMatch::new();
    mv(&mut m, "e2", "e4");
    mv(&mut m, "d7", "d5");
    let taken = mv(&mut m, "e4", "d5").unwrap();
    assert!(matches!(taken, Piece::Pawn(p) if p.color == Color::Black && p.move_count == 1));
    let back = mv(&mut m, "d8", "d5").unwrap();
    assert!(matches!(back, Piece::Pawn(p) if p.color == Color::White));
    assert_eq!(m.captured_pieces().len(), 2);
    match m.to_game_state("hello".to_string()) {
        GameMessage::GameState {
            board,
            turn_color,
            is_check,
            is_check_mate,
            message,
            captured_by_white,
            captured_by_black,
        } => {
            assert_eq!(board.len(), 8);
            assert_eq!(board[7][4].as_ref().unwrap().symbol, "♔");
            assert_eq!(board[3][3].as_ref().unwrap().symbol, "♛");
            assert_eq!(board[3][3].as_ref().unwrap().color, Color::Black);
            assert!(board[4][4].is_none());
            assert_eq!(turn_color, Color::White);
            assert!(!is_check && !is_check_mate);
            assert_eq!(message, "hello");
            assert_eq!(captured_by_white.len(), 1);
            assert_eq!(captured_by_white[0].symbol, "♟");
            assert_eq!(captured_by_black.len(), 1);
            assert_eq!(captured_by_black[0].symbol, "♙");
        }
        _ => panic!("expected a game state"),
    }
}
