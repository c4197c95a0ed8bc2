use chess::{
    get_coordinate, get_default_castling_availability, Board, CastlingRights, Color, Coordinate,
    Error, File, Rank, SquareColor,
};

#[test]
fn board_test_square_a1_is_dark() {
    let board = Board::new();
    let square_a1 = board.get_square(Coordinate { file: File::A, rank: Rank::One }).unwrap();
    assert_eq!(*square_a1.get_color(), SquareColor::Dark);
}

#[test]
fn board_test_square_c2_is_light() {
    let board = Board::new();
    let square_c2 = board.get_square(Coordinate { file: File::C, rank: Rank::Two }).unwrap();
    assert_eq!(*square_c2.get_color(), SquareColor::Light);
}

#[test]
fn board_test_fen_string_starting_position_success() {
    let board = Board::from_fen_string("rnbqkbnr/pppppppp/8/8/8/8/PPPPPPPP/RNBQKBNR w KQkq - 0 1").unwrap();
    assert_eq!(board.get_active_color(), Color::White);
    assert_eq!(board.get_castling_availability(), get_default_castling_availability());
    assert!(board.get_en_passant_target().is_none());
    assert_eq!(board.get_half_move_clock(), 0);
    assert_eq!(board.get_full_move(), 1);
}

#[test]
fn board_test_to_fen_string_starting_position_success() {
    let board = Board::new();
    assert_eq!(board.to_fen_string(), String::from("rnbqkbnr/pppppppp/8/8/8/8/PPPPPPPP/RNBQKBNR w KQkq - 0 1"));
}

#[test]
fn board_test_fen_string_starting_position_then_e4_success() {
    let board = Board::from_fen_string("rnbqkbnr/pppppppp/8/8/4P3/8/PPPP1PPP/RNBQKBNR b KQkq e3 0 1").unwrap();
    assert_eq!(board.get_active_color(), Color::Black);
    assert_eq!(board.get_castling_availability(), get_default_castling_availability());
    assert_eq!(board.get_en_passant_target().unwrap(), Coordinate { file: File::E, rank: Rank::Three });
    assert_eq!(board.get_half_move_clock(), 0);
    assert_eq!(board.get_full_move(), 1);
}

#[test]
fn board_test_to_fen_string_starting_position_then_e4_success() {
    let board = Board::from_fen_string("rnbqkbnr/pppppppp/8/8/4P3/8/PPPP1PPP/RNBQKBNR b KQkq e3 0 1").unwrap();
    assert_eq!(board.to_fen_string(), String::from("rnbqkbnr/pppppppp/8/8/4P3/8/PPPP1PPP/RNBQKBNR b KQkq e3 0 1"));
}

#[test]
fn board_test_fen_string_lategame_success() {
    let board = Board::from_fen_string("8/1k4R1/1r6/6p1/8/3r2p1/3P2P1/2B3K1 b - - 1 37").unwrap();
    assert_eq!(board.get_active_color(), Color::Black);
    assert_eq!(board.get_castling_availability(), CastlingRights::new());
    assert!(board.get_en_passant_target().is_none());
    assert_eq!(board.get_half_move_clock(), 1);
    assert_eq!(board.get_full_move(), 37);
}

#[test]
fn board_test_get_coordinate_a1_success() {
    let coord = get_coordinate("A1").unwrap();
    assert_eq!(coord.file, File::A);
    assert_eq!(coord.rank, Rank::One);
}

#[test]
fn board_test_get_coordinate_h8_success() {
    let coord = get_coordinate("H8").unwrap();
    assert_eq!(coord.file, File::H);
    assert_eq!(coord.rank, Rank::Eight);
}

#[test]
fn board_test_get_coordinate_z5_invalid() {
    assert_eq!(get_coordinate("Z5").err().unwrap(), Error::InvalidPositionString);
}

#[test]
fn board_test_get_coordinate_empty_string_invalid() {
    assert_eq!(get_coordinate("").err().unwrap(), Error::InvalidPositionString);
}

#[test]
fn board_test_get_coordinate_a9_invalid() {
    assert_eq!(get_coordinate("a9").err().unwrap(), Error::InvalidPositionString);
}

#[test]
fn board_test_get_coordinate_1010_invalid() {
    assert_eq!(get_coordinate("1010").err().unwrap(), Error::InvalidPositionString);
}

#[test]
fn board_test_get_piece_at_c1_white_bishop() {
    let board = Board::new();
    let square = board.get_square(Coordinate { file: File::C, rank: Rank::One }).unwrap();

    let piece = square.get_piece().as_ref().unwrap();
    assert_eq!(*piece.get_color(), Color::White);
    assert_eq!(piece.get_short_name(), "B");
}

#[test]
fn board_test_get_piece_at_g7_black_pawn() {
    let board = Board::new();
    let square = board.get_square(Coordinate { file: File::G, rank: Rank::Seven }).unwrap();

    let piece = square.get_piece().as_ref().unwrap();
    assert_eq!(*piece.get_color(), Color::Black);
    assert_eq!(piece.get_short_name(), "P");
}

#[test]
fn board_test_neither_in_check_at_game_start() {
    let board = Board::new();

    assert!(!board.is_in_check(&Color::White));
    assert!(!board.is_in_check(&Color::Black));
}

#[test]
fn board_test_white_is_in_check() {
    let board = Board::from_fen_string("rnbqk1nr/pppp1ppp/8/4P3/1b6/8/PPP1PPPP/RNBQKBNR w KQkq - 1 3").unwrap();

    assert!(board.is_in_check(&Color::White));
    assert!(!board.is_in_check(&Color::Black));
}
