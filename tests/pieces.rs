use chess::{Board, Coordinate, File, Rank};

fn moves_at(board: &Board, coords: Coordinate) -> Vec<Coordinate> {
    board
        .get_square(coords).unwrap()
        .get_piece().as_ref().unwrap()
        .get_moves(board, &coords)
}

#[test]
fn bishop_test_get_starting_moves_empty() {
    let board = Board::new();
    let coords = Coordinate { file: File::F, rank: Rank::One };
    let moves = moves_at(&board, coords);

    assert_eq!(moves.len(), 0);
}

#[test]
fn test_get_moves_after_1e4() {
    let board = Board::from_fen_string("rnbqkbnr/pppp1ppp/8/4p3/4P3/8/PPPP1PPP/RNBQKBNR w KQkq e6 0 2").unwrap();
    let coords = Coordinate { file: File::F, rank: Rank::One };
    let moves = moves_at(&board, coords);

    assert_eq!(moves.len(), 5);
    assert!(moves.contains(&Coordinate { file: File::E, rank: Rank::Two }));
    assert!(moves.contains(&Coordinate { file: File::D, rank: Rank::Three }));
    assert!(moves.contains(&Coordinate { file: File::C, rank: Rank::Four }));
    assert!(moves.contains(&Coordinate { file: File::B, rank: Rank::Five }));
    assert!(moves.contains(&Coordinate { file: File::A, rank: Rank::Six }));
}

#[test]
fn bishop_test_get_moves_stop_after_first_capture() {
    let board = Board::from_fen_string("rnbqkbnr/ppp2ppp/3p4/4p3/2B1P3/8/PPPP1PPP/RNBQK1NR w KQkq - 0 3").unwrap();
    let coords = Coordinate { file: File::C, rank: Rank::Four };
    let moves = moves_at(&board, coords);

    assert_eq!(moves.len(), 9);
    assert!(moves.contains(&Coordinate { file: File::B, rank: Rank::Five }));
    assert!(moves.contains(&Coordinate { file: File::A, rank: Rank::Six }));
    assert!(moves.contains(&Coordinate { file: File::D, rank: Rank::Five }));
    assert!(moves.contains(&Coordinate { file: File::E, rank: Rank::Six }));
    assert!(moves.contains(&Coordinate { file: File::F, rank: Rank::Seven }));
    assert!(moves.contains(&Coordinate { file: File::B, rank: Rank::Three }));
    assert!(moves.contains(&Coordinate { file: File::D, rank: Rank::Three }));
    assert!(moves.contains(&Coordinate { file: File::E, rank: Rank::Two }));
    assert!(moves.contains(&Coordinate { file: File::F, rank: Rank::One }));
}

#[test]
fn king_test_get_starting_moves_empty() {
    let board = Board::new();
    let coords = Coordinate { file: File::E, rank: Rank::One };
    let moves = moves_at(&board, coords);

    assert_eq!(moves.len(), 0);
}

#[test]
fn king_test_get_moves_stop_after_first_capture() {
    let board = Board::from_fen_string("rnbqkbnr/pp2pppp/8/3p4/2pKP3/8/PPPP1PPP/RNBQ1BNR b kq - 1 5").unwrap();
    let coords = Coordinate { file: File::D, rank: Rank::Four };
    let moves = moves_at(&board, coords);

    assert_eq!(moves.len(), 7);
    assert!(moves.contains(&Coordinate { file: File::C, rank: Rank::Three }));
    assert!(moves.contains(&Coordinate { file: File::C, rank: Rank::Four }));
    assert!(moves.contains(&Coordinate { file: File::C, rank: Rank::Five }));
    assert!(moves.contains(&Coordinate { file: File::D, rank: Rank::Three }));
    assert!(moves.contains(&Coordinate { file: File::D, rank: Rank::Five }));
    assert!(moves.contains(&Coordinate { file: File::E, rank: Rank::Three }));
    assert!(moves.contains(&Coordinate { file: File::E, rank: Rank::Five }));
}

#[test]
fn knight_test_get_starting_moves_empty() {
    let board = Board::new();
    let coords = Coordinate { file: File::B, rank: Rank::One };
    let moves = moves_at(&board, coords);

    assert_eq!(moves.len(), 2);
    assert!(moves.contains(&Coordinate { file: File::A, rank: Rank::Three }));
    assert!(moves.contains(&Coordinate { file: File::C, rank: Rank::Three }));
}

#[test]
fn knight_test_get_moves_stop_after_first_capture() {
    let board = Board::from_fen_string("rnbqkbnr/ppp1pppp/8/3p4/8/2N5/PPPPPPPP/R1BQKBNR w KQkq d6 0 2").unwrap();
    let coords = Coordinate { file: File::C, rank: Rank::Three };
    let moves = moves_at(&board, coords);

    assert_eq!(moves.len(), 5);
    assert!(moves.contains(&Coordinate { file: File::A, rank: Rank::Four }));
    assert!(moves.contains(&Coordinate { file: File::B, rank: Rank::Five }));
    assert!(moves.contains(&Coordinate { file: File::B, rank: Rank::One }));
    assert!(moves.contains(&Coordinate { file: File::D, rank: Rank::Five }));
    assert!(moves.contains(&Coordinate { file: File::E, rank: Rank::Four }));
}

#[test]
fn test_get_starting_moves_c2() {
    let board = Board::new();
    let coords = Coordinate { file: File::C, rank: Rank::Two };
    let moves = moves_at(&board, coords);

    assert_eq!(moves.len(), 2);
    assert!(moves.contains(&Coordinate { file: File::C, rank: Rank::Three }));
    assert!(moves.contains(&Coordinate { file: File::C, rank: Rank::Four }));
}

#[test]
fn test_get_starting_moves_f7() {
    let board = Board::new();
    let coords = Coordinate { file: File::F, rank: Rank::Seven };
    let moves = moves_at(&board, coords);

    assert_eq!(moves.len(), 2);
    assert!(moves.contains(&Coordinate { file: File::F, rank: Rank::Six }));
    assert!(moves.contains(&Coordinate { file: File::F, rank: Rank::Five }));
}

#[test]
fn test_capture_d4_e5() {
    let board = Board::from_fen_string("rnbqkbnr/pppp1ppp/8/4p3/3P4/8/PPP1PPPP/RNBQKBNR w KQkq e6 0 2").unwrap();
    let coords = Coordinate { file: File::D, rank: Rank::Four };
    let moves = moves_at(&board, coords);

    assert_eq!(moves.len(), 2);
    assert!(moves.contains(&Coordinate { file: File::D, rank: Rank::Five }));
    assert!(moves.contains(&Coordinate { file: File::E, rank: Rank::Five }));
}

#[test]
fn test_cannot_capture_ally() {
    let board = Board::from_fen_string("rnbqkbnr/1ppppppp/8/4P3/p2P4/8/PPP2PPP/RNBQKBNR b KQkq - 0 3").unwrap();
    let coords = Coordinate { file: File::D, rank: Rank::Four };
    let moves = moves_at(&board, coords);

    assert_eq!(moves.len(), 1);
    assert!(moves.contains(&Coordinate { file: File::D, rank: Rank::Five }));
    assert!(!moves.contains(&Coordinate { file: File::E, rank: Rank::Five }));
}

#[test]
fn test_capture_en_passant() {
    let board = Board::from_fen_string("rnbqkbnr/ppp2ppp/3p4/3Pp3/8/8/PPP1PPPP/RNBQKBNR w KQkq e6 0 3").unwrap();
    let coords = Coordinate { file: File::D, rank: Rank::Five };
    let moves = moves_at(&board, coords);

    assert_eq!(moves.len(), 1);
    assert!(moves.contains(&Coordinate { file: File::E, rank: Rank::Six }));
}

#[test]
fn queen_test_get_starting_moves_empty() {
    let board = Board::new();
    let coords = Coordinate { file: File::D, rank: Rank::One };
    let moves = moves_at(&board, coords);

    assert_eq!(moves.len(), 0);
}

#[test]
fn queen_test_get_moves_stop_after_first_capture() {
    let board = Board::from_fen_string("rnbqkbnr/ppp2ppp/8/3pp2Q/4P3/8/PPPP1PPP/RNB1KBNR w KQkq d6 0 3").unwrap();
    let coords = Coordinate { file: File::H, rank: Rank::Five };
    let moves = moves_at(&board, coords);

    assert_eq!(moves.len(), 13);
    assert!(moves.contains(&Coordinate { file: File::D, rank: Rank::One }));
    assert!(moves.contains(&Coordinate { file: File::E, rank: Rank::Two }));
    assert!(moves.contains(&Coordinate { file: File::F, rank: Rank::Three }));
    assert!(moves.contains(&Coordinate { file: File::G, rank: Rank::Four }));
    assert!(moves.contains(&Coordinate { file: File::E, rank: Rank::Five }));
    assert!(moves.contains(&Coordinate { file: File::F, rank: Rank::Five }));
    assert!(moves.contains(&Coordinate { file: File::G, rank: Rank::Five }));
    assert!(moves.contains(&Coordinate { file: File::G, rank: Rank::Six }));
    assert!(moves.contains(&Coordinate { file: File::F, rank: Rank::Seven }));
    assert!(moves.contains(&Coordinate { file: File::H, rank: Rank::Seven }));
    assert!(moves.contains(&Coordinate { file: File::H, rank: Rank::Six }));
    assert!(moves.contains(&Coordinate { file: File::H, rank: Rank::Four }));
    assert!(moves.contains(&Coordinate { file: File::H, rank: Rank::Three }));
}

#[test]
fn rook_test_get_starting_moves_empty() {
    let board = Board::new();
    let coords = Coordinate { file: File::F, rank: Rank::One };
    let moves = moves_at(&board, coords);

    assert_eq!(moves.len(), 0);
}

#[test]
fn rook_test_get_moves_stop_after_first_capture() {
    let board = Board::from_fen_string("rnbqkbnr/pp3ppp/4p3/2pp4/P7/3R4/1PPPPPPP/1NBQKBNR w Kkq - 0 4").unwrap();
    let coords = Coordinate { file: File::D, rank: Rank::Three };
    let moves = moves_at(&board, coords);

    assert_eq!(moves.len(), 9);
    assert!(moves.contains(&Coordinate { file: File::A, rank: Rank::Three }));
    assert!(moves.contains(&Coordinate { file: File::B, rank: Rank::Three }));
    assert!(moves.contains(&Coordinate { file: File::C, rank: Rank::Three }));
    assert!(moves.contains(&Coordinate { file: File::E, rank: Rank::Three }));
    assert!(moves.contains(&Coordinate { file: File::F, rank: Rank::Three }));
    assert!(moves.contains(&Coordinate { file: File::G, rank: Rank::Three }));
    assert!(moves.contains(&Coordinate { file: File::H, rank: Rank::Three }));
    assert!(moves.contains(&Coordinate { file: File::D, rank: Rank::Four }));
    assert!(moves.contains(&Coordinate { file: File::D, rank: Rank::Five }));
}
