use chess::{
    get_castle_availability_str, get_coordinate, Board, CastleAvailability, CastlingRights, Color,
    Coordinate, Error, File, Game, MoveType, Rank, SquareColor,
};

const START: &str = "rnbqkbnr/pppppppp/8/8/8/8/PPPPPPPP/RNBQKBNR w KQkq - 0 1";

fn c(file: File, rank: Rank) -> Coordinate {
    Coordinate { file, rank }
}

#[test]
fn coordinate_text_reads_back_for_every_square() {
    let files = ["a", "b", "c", "d", "e", "f", "g", "h", "A", "B", "C", "D", "E", "F", "G", "H"];
    let ranks = ["1", "2", "3", "4", "5", "6", "7", "8"];
    for f in files.iter() {
        for r in ranks.iter() {
            let s = format!("{}{}", f, r);
            let coord = get_coordinate(&s).unwrap();
            assert!(coord.is_valid());
            assert_eq!(coord.to_string(), s.to_uppercase());
            assert_eq!(get_coordinate(&coord.to_string()).unwrap(), coord);
        }
    }
}

#[test]
fn coordinate_to_string_is_upper_case_letter_then_digit() {
    assert_eq!(c(File::E, Rank::Four).to_string(), "E4");
    assert_eq!(c(File::A, Rank::One).to_string(), "A1");
    assert_eq!(c(File::Invalid, Rank::Three).to_string(), "!3");
}

#[test]
fn coordinate_parse_is_case_insensitive() {
    assert_eq!(get_coordinate("e4").unwrap(), c(File::E, Rank::Four));
    assert_eq!(get_coordinate("E4").unwrap(), c(File::E, Rank::Four));
    assert_eq!(get_coordinate("h1").unwrap(), c(File::H, Rank::One));
}

#[test]
fn coordinate_parse_rejects_malformed_text() {
    for s in ["i1", "a0", "e", "e44", "4e", " e4", "é4"].iter() {
        assert_eq!(get_coordinate(s), Err(Error::InvalidPositionString));
    }
}

#[test]
fn coordinate_add_moves_each_axis() {
    assert_eq!(c(File::E, Rank::Four).add((1, 1)), c(File::F, Rank::Five));
    assert_eq!(c(File::E, Rank::Four).add((-4, 4)), c(File::A, Rank::Eight));
    let off = c(File::H, Rank::Eight).add((1, 0));
    assert_eq!(off, c(File::Invalid, Rank::Eight));
    assert!(!off.is_valid());
    assert_eq!(c(File::A, Rank::One).add((-1, -1)), c(File::Invalid, Rank::Invalid));
    assert_eq!(c(File::Invalid, Rank::One).add((1, 0)), c(File::Invalid, Rank::One));
    assert_eq!(c(File::A, Rank::One).add((127, -128)), c(File::Invalid, Rank::Invalid));
}

#[test]
fn file_and_rank_numbers() {
    assert_eq!(File::from(3), File::C);
    assert_eq!(File::from(0), File::Invalid);
    assert_eq!(File::from(9), File::Invalid);
    assert_eq!(Rank::from(8), Rank::Eight);
    assert_eq!(Rank::from(-1), Rank::Invalid);
    assert_eq!(File::G.as_i8(), 7);
    assert_eq!(Rank::Two.as_i8(), 2);
    assert_eq!(File::B.to_char(), 'B');
    assert_eq!(File::B.to_lower_char(), 'b');
    assert_eq!(File::Invalid.to_char(), '!');
    assert_eq!(Rank::Six.to_char(), '6');
    assert_eq!(Rank::Invalid.to_char(), '!');
}

#[test]
fn make_coordinate_is_zero_based() {
    assert_eq!(Coordinate::make_coordinate(0, 0), c(File::A, Rank::One));
    assert_eq!(Coordinate::make_coordinate(7, 7), c(File::H, Rank::Eight));
    assert_eq!(Coordinate::make_coordinate(8, 0), c(File::Invalid, Rank::One));
    assert_eq!(Coordinate::make_coordinate(-1, 3), c(File::Invalid, Rank::Four));
    assert_eq!(Coordinate::make_coordinate(127, 127), c(File::Invalid, Rank::Invalid));
}

#[test]
fn square_shades_alternate() {
    let board = Board::new();
    let shade = |f, r| *board.get_square(c(f, r)).unwrap().get_color();
    assert_eq!(shade(File::A, Rank::One), SquareColor::Dark);
    assert_eq!(shade(File::H, Rank::One), SquareColor::Light);
    assert_eq!(shade(File::A, Rank::Eight), SquareColor::Light);
    assert_eq!(shade(File::H, Rank::Eight), SquareColor::Dark);
    assert_eq!(shade(File::D, Rank::Four), SquareColor::Dark);
    let parsed = Board::from_fen_string(START).unwrap();
    assert_eq!(*parsed.get_square(c(File::H, Rank::One)).unwrap().get_color(), SquareColor::Light);
}

#[test]
fn square_knows_its_address() {
    let board = Board::new();
    let sq = board.get_square(c(File::F, Rank::Three)).unwrap();
    assert_eq!(*sq.get_coord(), c(File::F, Rank::Three));
    assert!(sq.get_piece().is_none());
}

#[test]
fn get_square_off_the_board_fails() {
    let board = Board::new();
    assert_eq!(
        board.get_square(c(File::Invalid, Rank::One)).err().unwrap(),
        Error::InvalidRawCoordinatePair
    );
    assert_eq!(
        board.get_square(c(File::A, Rank::Invalid)).err().unwrap(),
        Error::InvalidRawCoordinatePair
    );
}

#[test]
fn start_position_pieces() {
    let board = Board::new();
    let piece = |f, r| *board.get_square(c(f, r)).unwrap().get_piece();
    let names: Vec<&str> = [File::A, File::B, File::C, File::D, File::E, File::F, File::G, File::H]
        .iter()
        .map(|f| piece(*f, Rank::Eight).unwrap().get_short_name())
        .collect();
    assert_eq!(names, vec!["R", "N", "B", "Q", "K", "B", "N", "R"]);
    assert_eq!(*piece(File::E, Rank::Eight).unwrap().get_color(), Color::Black);
    assert_eq!(*piece(File::D, Rank::One).unwrap().get_color(), Color::White);
    assert!(piece(File::E, Rank::Four).is_none());
    let parsed = Board::from_fen_string(START).unwrap();
    let g7 = parsed.get_square(c(File::G, Rank::Seven)).unwrap().get_piece().unwrap();
    assert_eq!(*g7.get_color(), Color::Black);
    assert_eq!(g7.get_short_name(), "P");
}

#[test]
fn move_types() {
    let board = Board::new();
    let piece = |f, r| board.get_square(c(f, r)).unwrap().get_piece().unwrap();
    assert_eq!(piece(File::B, Rank::One).get_move_type(), MoveType::Jump);
    assert_eq!(piece(File::A, Rank::One).get_move_type(), MoveType::Linear);
    assert_eq!(piece(File::E, Rank::Two).get_move_type(), MoveType::Linear);
}

#[test]
fn can_move_and_can_capture() {
    let board = Board::new();
    assert!(board.can_move(&c(File::E, Rank::Four), &Color::White));
    assert!(!board.can_move(&c(File::E, Rank::Two), &Color::White));
    assert!(!board.can_move(&c(File::Invalid, Rank::Four), &Color::White));
    assert!(board.can_capture(&c(File::E, Rank::Seven), &Color::White));
    assert!(!board.can_capture(&c(File::E, Rank::Two), &Color::White));
    assert!(!board.can_capture(&c(File::E, Rank::Four), &Color::White));
    assert!(!board.can_capture(&c(File::E, Rank::Invalid), &Color::White));
}

#[test]
fn fen_round_trips() {
    for s in [
        START,
        "rnbqkbnr/pppppppp/8/8/4P3/8/PPPP1PPP/RNBQKBNR b KQkq e3 0 1",
        "8/1k4R1/1r6/6p1/8/3r2p1/3P2P1/2B3K1 b - - 1 37",
        "rnbqk1nr/pppp1ppp/8/4P3/1b6/8/PPP1PPPP/RNBQKBNR w KQkq - 1 3",
        "r3k2r/8/8/8/8/8/8/R3K2R w Kq - 12 2147483647",
        "8/8/8/8/8/8/8/8 w - a6 0 1",
    ]
    .iter()
    {
        assert_eq!(Board::from_fen_string(s).unwrap().to_fen_string(), *s);
    }
    let new_board = Board::new();
    let again = Board::from_fen_string(&new_board.to_fen_string()).unwrap();
    assert_eq!(again.to_fen_string(), START);
}

#[test]
fn fen_accepts_and_normalises_variants() {
    let board = Board::from_fen_string("rnbqkbnr/pppppppp/44/8/8/8/PPPPPPPP/RNBQKBNR W qkQK E3 007 1").unwrap();
    assert_eq!(board.get_active_color(), Color::White);
    assert_eq!(board.get_half_move_clock(), 7);
    assert_eq!(board.to_fen_string(), "rnbqkbnr/pppppppp/8/8/8/8/PPPPPPPP/RNBQKBNR w KQkq e3 7 1");
}

#[test]
fn fen_without_six_fields_fails() {
    for s in [
        "",
        "rnbqkbnr/pppppppp/8/8/8/8/PPPPPPPP/RNBQKBNR w KQkq - 0",
        "rnbqkbnr/pppppppp/8/8/8/8/PPPPPPPP/RNBQKBNR w KQkq - 0 1 extra",
        "rnbqkbnr/pppppppp/8/8/8/8/PPPPPPPP/RNBQKBNR  w KQkq - 0 1",
    ]
    .iter()
    {
        assert_eq!(Board::from_fen_string(s).err(), Some(Error::InvalidFENString));
    }
}

#[test]
fn fen_with_bad_fields_fails() {
    for s in [
        "rnbqkbnr/pppppppp/8/8/8/8/PPPPPPPP/RNBQKBNX w KQkq - 0 1",
        "rnbqkbnr/ppppppppp/8/8/8/8/PPPPPPPP/RNBQKBNR w KQkq - 0 1",
        "rnbqkbnr/pppppppp/9/8/8/8/PPPPPPPP/RNBQKBNR w KQkq - 0 1",
        "rnbqkbnr/pppppppp/7/8/8/8/PPPPPPPP/RNBQKBNR w KQkq - 0 1",
        "rnbqkbnr/pppppppp/8/8/8/PPPPPPPP/RNBQKBNR w KQkq - 0 1",
        "rnbqkbnr/pppppppp/8/8/8/8/8/PPPPPPPP/RNBQKBNR w KQkq - 0 1",
        "rnbqkbnr/pppppppp/8/8/8/8/PPPPPPPP/RNBQKBNR x KQkq - 0 1",
        "rnbqkbnr/pppppppp/8/8/8/8/PPPPPPPP/RNBQKBNR w KQkX - 0 1",
        "rnbqkbnr/pppppppp/8/8/8/8/PPPPPPPP/RNBQKBNR w KQkq e9 0 1",
        "rnbqkbnr/pppppppp/8/8/8/8/PPPPPPPP/RNBQKBNR w KQkq - -1 1",
        "rnbqkbnr/pppppppp/8/8/8/8/PPPPPPPP/RNBQKBNR w KQkq - a 1",
        "rnbqkbnr/pppppppp/8/8/8/8/PPPPPPPP/RNBQKBNR w KQkq - 0 0",
        "rnbqkbnr/pppppppp/8/8/8/8/PPPPPPPP/RNBQKBNR w KQkq - 2147483648 1",
        "rnbqkbnr/pppppppp/8/8/8/8/PPPPPPPP/RNBQKBNR w KQkq -  1",
    ]
    .iter()
    {
        assert_eq!(Board::from_fen_string(s).err(), Some(Error::InvalidFENString));
    }
}

#[test]
fn castling_rights_text() {
    assert_eq!(get_castle_availability_str(&CastlingRights::new()), "-");
    assert_eq!(get_castle_availability_str(&CastlingRights::all()), "KQkq");
    let mut rights = CastlingRights::new();
    rights.insert(CastleAvailability::BlackQueenside);
    rights.insert(CastleAvailability::WhiteKingside);
    assert!(rights.contains(CastleAvailability::WhiteKingside));
    assert!(!rights.contains(CastleAvailability::BlackKingside));
    assert!(!rights.is_empty());
    assert_eq!(get_castle_availability_str(&rights), "Kq");
    let board = Board::from_fen_string("r3k2r/8/8/8/8/8/8/R3K2R w Kq - 0 1").unwrap();
    assert_eq!(board.get_castling_availability(), rights);
}

#[test]
fn black_in_check_white_not() {
    let board = Board::from_fen_string("rnbqkbnr/ppppp1pp/5p2/7Q/4P3/8/PPPP1PPP/RNB1KBNR b KQkq - 1 2").unwrap();
    assert!(board.is_in_check(&Color::Black));
    assert!(!board.is_in_check(&Color::White));
}

#[test]
fn knight_in_corner_has_two_jumps() {
    let board = Board::from_fen_string("N6k/8/8/8/8/8/8/7K w - - 0 1").unwrap();
    let knight = board.get_square(c(File::A, Rank::Eight)).unwrap().get_piece().unwrap();
    let moves = knight.get_moves(&board, &c(File::A, Rank::Eight));
    assert_eq!(moves, vec![c(File::B, Rank::Six), c(File::C, Rank::Seven)]);
}

#[test]
fn pawn_double_step_needs_only_its_target_square_empty() {
    let board = Board::from_fen_string("4k3/8/8/8/8/4n3/4P3/4K3 w - - 0 1").unwrap();
    let pawn = board.get_square(c(File::E, Rank::Two)).unwrap().get_piece().unwrap();
    let moves = pawn.get_moves(&board, &c(File::E, Rank::Two));
    assert_eq!(moves, vec![c(File::E, Rank::Four)]);
}

#[test]
fn rook_ray_stops_at_enemy_and_ally() {
    let board = Board::from_fen_string("4k3/8/8/8/p2R1P2/8/8/4K3 w - - 0 1").unwrap();
    let rook = board.get_square(c(File::D, Rank::Four)).unwrap().get_piece().unwrap();
    let moves = rook.get_moves(&board, &c(File::D, Rank::Four));
    assert_eq!(moves.len(), 11);
    assert!(moves.contains(&c(File::A, Rank::Four)));
    assert!(moves.contains(&c(File::E, Rank::Four)));
    assert!(!moves.contains(&c(File::F, Rank::Four)));
    assert!(moves.contains(&c(File::D, Rank::Eight)));
    assert!(moves.contains(&c(File::D, Rank::One)));
}

#[test]
fn king_steps_to_every_free_neighbour() {
    let board = Board::from_fen_string("4k3/8/8/8/3K4/8/8/8 w - - 0 1").unwrap();
    let king = board.get_square(c(File::D, Rank::Four)).unwrap().get_piece().unwrap();
    assert_eq!(king.get_moves(&board, &c(File::D, Rank::Four)).len(), 8);
}

#[test]
fn game_starts_with_white() {
    let game = Game::new();
    assert_eq!(game.current_player(), Color::White);
    assert_eq!(game.get_board().to_fen_string(), START);
}

#[test]
fn find_king_needs_exactly_one() {
    let board = Board::new();
    assert_eq!(board.find_king(&Color::White), Some(c(File::E, Rank::One)));
    assert_eq!(board.find_king(&Color::Black), Some(c(File::E, Rank::Eight)));
    let no_black_king = Board::from_fen_string("8/8/8/8/8/8/8/4K3 w - - 0 1").unwrap();
    assert_eq!(no_black_king.find_king(&Color::Black), None);
    let two_white_kings = Board::from_fen_string("4k3/8/8/8/8/8/8/K3K3 w - - 0 1").unwrap();
    assert_eq!(two_white_kings.find_king(&Color::White), None);
    assert_eq!(two_white_kings.find_king(&Color::Black), Some(c(File::E, Rank::Eight)));
}
