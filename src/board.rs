use vstd::prelude::*;
use vstd::arithmetic::div_mod::lemma_fundamental_div_mod_converse;

use crate::castling::{all_castling_rights, CastleAvailability, CastlingRights};
use crate::coord::{Coordinate, File, Rank};
use crate::error::Error;
use crate::piece::{Bishop, Color, King, Knight, Pawn, Piece, Queen, Rook};
use crate::square::{Square, SquareColor};
use crate::coord::push_char;
use crate::fen::{
    chars_of, fen_text, get_castle_availability_str, lemma_fen_text_fields, parse_active_color,
    parse_castling_rights, parse_clock, parse_en_passant_target, parse_fen, parse_pieces, push_chars,
    push_decimal, push_placement, split_chars,
};
use crate::text::split;

verus! {

/// Number of files, and of ranks, on the board.
pub const BOARD_WIDTH: i8 = 8;

/// The index of a coordinate on the board in the row-major order of squares:
/// rank one first, file A first within a rank.
pub open spec fn square_index(c: Coordinate) -> int {
    8 * (c.rank.num() - 1) + (c.file.num() - 1)
}

/// The coordinate of the square at row-major index `k`.
pub open spec fn coord_at(k: int) -> Coordinate {
    Coordinate::at(k % 8, k / 8)
}

/// The shade of the square at `c`: a1 is dark, and shades alternate along
/// both axes.
pub open spec fn shade_of(c: Coordinate) -> SquareColor {
    if (c.file.num() + c.rank.num()) % 2 == 0 {
        SquareColor::Dark
    } else {
        SquareColor::Light
    }
}

/// What a board holds, as mathematical values.
pub struct BoardModel {
    /// The occupant of each square, in row-major order (see [`square_index`]).
    pub pieces: Seq<Option<Piece>>,
    pub active_color: Color,
    pub castling: Set<CastleAvailability>,
    pub en_passant: Option<Coordinate>,
    pub half_move_clock: int,
    pub full_move: int,
}

impl BoardModel {
    /// 64 squares, an en-passant target on the board, a non-negative half-move
    /// clock and a positive full-move number, both within `i32`.
    pub open spec fn wf(self) -> bool {
        &&& self.pieces.len() == 64
        &&& (self.en_passant is Some ==> self.en_passant->Some_0.valid())
        &&& 0 <= self.half_move_clock <= i32::MAX
        &&& 1 <= self.full_move <= i32::MAX
    }

    /// The piece at `c`; `None` for an empty square or a coordinate off the board.
    pub open spec fn piece_at(self, c: Coordinate) -> Option<Piece> {
        if c.valid() {
            self.pieces[square_index(c)]
        } else {
            None
        }
    }

    /// `c` is a square of the board and nothing stands on it.
    pub open spec fn empty_at(self, c: Coordinate) -> bool {
        c.valid() && self.piece_at(c) is None
    }

    /// `c` is a square of the board holding a piece of the side opposing `mover`.
    pub open spec fn enemy_at(self, c: Coordinate, mover: Color) -> bool {
        c.valid() && self.piece_at(c) is Some && self.piece_at(c)->Some_0.side() != mover
    }
}

/// The back-rank piece of the given side on the given file.
pub open spec fn back_rank_piece(file: File, color: Color) -> Option<Piece> {
    match file {
        File::A | File::H => Some(Piece::Rook(Rook { color })),
        File::B | File::G => Some(Piece::Knight(Knight { color })),
        File::C | File::F => Some(Piece::Bishop(Bishop { color })),
        File::D => Some(Piece::Queen(Queen { color })),
        File::E => Some(Piece::King(King { color })),
        File::Invalid => None,
    }
}

/// The piece that stands on `c` in the standard starting position.
pub open spec fn start_piece(c: Coordinate) -> Option<Piece> {
    match c.rank {
        Rank::One => back_rank_piece(c.file, Color::White),
        Rank::Two => if c.file != File::Invalid {
            Some(Piece::Pawn(Pawn { color: Color::White }))
        } else {
            None
        },
        Rank::Seven => if c.file != File::Invalid {
            Some(Piece::Pawn(Pawn { color: Color::Black }))
        } else {
            None
        },
        Rank::Eight => back_rank_piece(c.file, Color::Black),
        _ => None,
    }
}

/// The standard starting position, White to move, all castling rights, no
/// en-passant target, clocks at 0 and 1.
pub open spec fn start_model() -> BoardModel {
    BoardModel {
        pieces: Seq::new(64, |k: int| start_piece(coord_at(k))),
        active_color: Color::White,
        castling: all_castling_rights(),
        en_passant: None,
        half_move_clock: 0,
        full_move: 1,
    }
}

/// Index and coordinate correspond: column `x`, row `y` is index `8y + x`.
pub proof fn lemma_index_of_column_row(x: int, y: int)
    requires
        0 <= x < 8,
        0 <= y < 8,
    ensures
        coord_at(8 * y + x) == Coordinate::at(x, y),
        Coordinate::at(x, y).valid(),
        square_index(Coordinate::at(x, y)) == 8 * y + x,
{
    lemma_fundamental_div_mod_converse(8 * y + x, 8, y, x);
}

/// A king of side `color` stands at index `k`.
pub open spec fn king_at(m: BoardModel, color: Color, k: int) -> bool {
    m.pieces[k] matches Some(p) && p.is_king_of(color)
}

/// Exactly one king of side `color` is on the board.
pub open spec fn has_single_king(m: BoardModel, color: Color) -> bool {
    exists|k: int|
        0 <= k < 64 && #[trigger] king_at(m, color, k) && (forall|j: int|
            0 <= j < 64 && #[trigger] king_at(m, color, j) ==> j == k)
}

/// The piece at index `k` belongs to side `attacker` and has `target` among
/// its destinations.
pub open spec fn attacks_from(m: BoardModel, k: int, target: Coordinate, attacker: Color) -> bool {
    m.pieces[k] matches Some(p) && p.side() == attacker && p.moves(m, coord_at(k)).contains(target)
}

/// Some piece of side `attacker` has `target` among its destinations.
pub open spec fn attacked_by(m: BoardModel, target: Coordinate, attacker: Color) -> bool {
    exists|k: int| 0 <= k < 64 && #[trigger] attacks_from(m, k, target, attacker)
}

/// The king of side `color` stands on a destination of a piece of the other side.
pub open spec fn in_check(m: BoardModel, color: Color) -> bool {
    exists|k: int|
        0 <= k < 64 && #[trigger] king_at(m, color, k) && attacked_by(
            m,
            coord_at(k),
            color.opponent(),
        )
}

/// The moves in `moves` include `target`.
fn contains_coord(moves: &Vec<Coordinate>, target: &Coordinate) -> (r: bool)
    ensures
        r == moves@.contains(*target),
{
    let mut i: usize = 0;
    while i < moves.len()
        invariant
            i <= moves@.len(),
            forall|j: int| 0 <= j < i ==> moves@[j] != *target,
        decreases moves@.len() - i,
    {
        if moves[i] == *target {
            return true;
        }
        i = i + 1;
    }
    false
}

/// The piece standing on `coord` in the starting position, if any.
pub fn make_piece_at_coord(coord: Coordinate) -> (r: Option<Piece>)
    ensures
        r == start_piece(coord),
{
    let color = match coord.rank {
        Rank::One | Rank::Two => Color::White,
        Rank::Seven | Rank::Eight => Color::Black,
        _ => {
            return None;
        },
    };
    if !coord.file.is_valid() {
        return None;
    }
    match coord.rank {
        Rank::Two | Rank::Seven => Some(Piece::Pawn(Pawn::new(color))),
        _ => match coord.file {
            File::A | File::H => Some(Piece::Rook(Rook::new(color))),
            File::B | File::G => Some(Piece::Knight(Knight::new(color))),
            File::C | File::F => Some(Piece::Bishop(Bishop::new(color))),
            File::D => Some(Piece::Queen(Queen::new(color))),
            _ => Some(Piece::King(King::new(color))),
        },
    }
}

/// All four castling rights, as at the start of a game.
pub fn get_default_castling_availability() -> (r: CastlingRights)
    ensures
        r@ == all_castling_rights(),
{
    CastlingRights::all()
}

/// The 64 squares of a chess board and the state of the game around them: whose
/// turn it is, castling rights, en-passant target and the two move counters.
pub struct Board {
    squares: Vec<Square>,
    active_color: Color,
    castling_availability: CastlingRights,
    en_passant_target: Option<Coordinate>,
    half_move_clock: i32,
    full_move: i32,
}

impl View for Board {
    type V = BoardModel;

    closed spec fn view(&self) -> BoardModel {
        BoardModel {
            pieces: Seq::new(self.squares@.len(), |k: int| self.squares@[k].occupant()),
            active_color: self.active_color,
            castling: self.castling_availability@,
            en_passant: self.en_passant_target,
            half_move_clock: self.half_move_clock as int,
            full_move: self.full_move as int,
        }
    }
}

/// The squares are laid out in row-major order, each with its address and shade.
pub open spec fn squares_laid_out(squares: Seq<Square>, n: int) -> bool {
    forall|k: int|
        0 <= k < n ==> (#[trigger] squares[k]).address() == coord_at(k) && squares[k].shade()
            == shade_of(coord_at(k))
}

impl Board {
    #[verifier::type_invariant]
    spec fn inv(&self) -> bool {
        &&& self.squares@.len() == 64
        &&& squares_laid_out(self.squares@, 64)
        &&& self@.wf()
    }

    /// The standard starting position: White to move, all castling rights, no
    /// en-passant target, half-move clock 0, full-move number 1.
    pub fn new() -> (r: Board)
        ensures
            r@ == start_model(),
    {
        let mut squares: Vec<Square> = Vec::new();
        let mut color = SquareColor::Dark;
        let mut y: i8 = 0;
        while y < BOARD_WIDTH
            invariant
                0 <= y <= 8,
                squares@.len() == 8 * y,
                squares_laid_out(squares@, squares@.len() as int),
                forall|k: int|
                    0 <= k < squares@.len() ==> (#[trigger] squares@[k]).occupant() == start_piece(
                        coord_at(k),
                    ),
                color == (if y % 2 == 0 { SquareColor::Dark } else { SquareColor::Light }),
            decreases 8 - y,
        {
            let mut x: i8 = 0;
            while x < BOARD_WIDTH
                invariant
                    0 <= y < 8,
                    0 <= x <= 8,
                    squares@.len() == 8 * y + x,
                    squares_laid_out(squares@, squares@.len() as int),
                    forall|k: int|
                        0 <= k < squares@.len() ==> (#[trigger] squares@[k]).occupant()
                            == start_piece(coord_at(k)),
                    color == (if (x + y) % 2 == 0 { SquareColor::Dark } else { SquareColor::Light }),
                decreases 8 - x,
            {
                let coord = Coordinate::make_coordinate(x, y);
                let mut square = Square::new(color, coord);
                square.set_piece(make_piece_at_coord(coord));
                proof {
                    lemma_index_of_column_row(x as int, y as int);
                }
                squares.push(square);
                color = color.flip();
                x = x + 1;
            }
            // Shades repeat across a row boundary, so flip once more.
            color = color.flip();
            y = y + 1;
        }
        let board = Board {
            squares,
            active_color: Color::White,
            castling_availability: get_default_castling_availability(),
            en_passant_target: None,
            half_move_clock: 0,
            full_move: 1,
        };
        assert(board@.pieces =~= start_model().pieces);
        board
    }

    /// A board holding `pieces` (row-major, rank one first) and the given game
    /// state.
    fn from_parts(
        pieces: &Vec<Option<Piece>>,
        active_color: Color,
        castling_availability: CastlingRights,
        en_passant_target: Option<Coordinate>,
        half_move_clock: i32,
        full_move: i32,
    ) -> (r: Board)
        requires
            pieces@.len() == 64,
            en_passant_target matches Some(c) ==> c.valid(),
            half_move_clock >= 0,
            full_move >= 1,
        ensures
            r@ == (BoardModel {
                pieces: pieces@,
                active_color,
                castling: castling_availability@,
                en_passant: en_passant_target,
                half_move_clock: half_move_clock as int,
                full_move: full_move as int,
            }),
    {
        let mut squares: Vec<Square> = Vec::new();
        let mut k: usize = 0;
        while k < 64
            invariant
                k <= 64,
                pieces@.len() == 64,
                squares@.len() == k,
                squares_laid_out(squares@, k as int),
                forall|j: int| 0 <= j < k ==> (#[trigger] squares@[j]).occupant() == pieces@[j],
            decreases 64 - k,
        {
            let x = (k % 8) as i8;
            let y = (k / 8) as i8;
            proof {
                lemma_fundamental_div_mod_converse(k as int, 8, y as int, x as int);
                lemma_index_of_column_row(x as int, y as int);
            }
            let color = if (x + y) % 2 == 0 {
                SquareColor::Dark
            } else {
                SquareColor::Light
            };
            let mut square = Square::new(color, Coordinate::make_coordinate(x, y));
            square.set_piece(pieces[k]);
            squares.push(square);
            k = k + 1;
        }
        let board = Board {
            squares,
            active_color,
            castling_availability,
            en_passant_target,
            half_move_clock,
            full_move,
        };
        assert(board@.pieces =~= pieces@);
        board
    }

    /// Reads a board from a FEN string: six fields separated by single spaces,
    /// namely the piece placement (ranks eight to one, separated by `/`, with
    /// piece letters and digits 1-8 for runs of empty squares, eight squares
    /// per rank), the side to move (`w` or `b`, either case), the castling
    /// rights (`K Q k q` in any combination, or `-`), the en-passant target (`-`
    /// or a position string), the half-move clock (a non-negative decimal) and
    /// the full-move number (a positive decimal), both within `i32`. Any other
    /// text fails with `InvalidFENString`.
    pub fn from_fen_string(fen_string: &str) -> (r: Result<Board, Error>)
        ensures
            r is Ok <==> parse_fen(fen_string@) is Some,
            r matches Ok(b) ==> b@ == parse_fen(fen_string@)->Some_0,
            r matches Err(e) ==> e == Error::InvalidFENString,
    {
        let chars = chars_of(fen_string);
        let fields = split_chars(&chars, ' ');
        let ghost fs = split(fen_string@, ' ');
        if fields.len() != 6 {
            return Err(Error::InvalidFENString);
        }
        assert(forall|i: int| 0 <= i < 6 ==> fields@[i]@ == fs[i]);
        let pieces = match parse_pieces(&fields[0]) {
            Some(p) => p,
            None => {
                return Err(Error::InvalidFENString);
            },
        };
        let active_color = match parse_active_color(&fields[1]) {
            Some(c) => c,
            None => {
                return Err(Error::InvalidFENString);
            },
        };
        let castling_availability = match parse_castling_rights(&fields[2]) {
            Some(c) => c,
            None => {
                return Err(Error::InvalidFENString);
            },
        };
        let en_passant_target = match parse_en_passant_target(&fields[3]) {
            Some(t) => t,
            None => {
                return Err(Error::InvalidFENString);
            },
        };
        let half_move_clock = match parse_clock(&fields[4]) {
            Some(n) => n,
            None => {
                return Err(Error::InvalidFENString);
            },
        };
        let full_move = match parse_clock(&fields[5]) {
            Some(n) => n,
            None => {
                return Err(Error::InvalidFENString);
            },
        };
        if full_move < 1 {
            return Err(Error::InvalidFENString);
        }
        proof {
            crate::fen::lemma_parse_fen_wf(fen_string@);
        }
        Ok(
            Board::from_parts(
                &pieces,
                active_color,
                castling_availability,
                en_passant_target,
                half_move_clock,
                full_move,
            ),
        )
    }

    /// The FEN string of the board; reading it back with
    /// [`Board::from_fen_string`] gives the same board.
    pub fn to_fen_string(&self) -> (r: String)
        ensures
            r@ == fen_text(self@),
    {
        proof {
            use_type_invariant(self);
            lemma_fen_text_fields(self@);
        }
        let mut s = String::new();
        push_placement(&mut s, self);
        push_char(&mut s, ' ');
        match self.get_active_color() {
            Color::White => push_char(&mut s, 'w'),
            Color::Black => push_char(&mut s, 'b'),
        }
        push_char(&mut s, ' ');
        let castling = get_castle_availability_str(&self.get_castling_availability());
        push_chars(&mut s, &castling);
        push_char(&mut s, ' ');
        match self.get_en_passant_target() {
            Some(c) => {
                push_char(&mut s, c.file.to_lower_char());
                push_char(&mut s, c.rank.to_char());
            },
            None => push_char(&mut s, '-'),
        }
        push_char(&mut s, ' ');
        push_decimal(&mut s, self.get_half_move_clock());
        push_char(&mut s, ' ');
        push_decimal(&mut s, self.get_full_move());
        assert(s@ =~= fen_text(self@));
        s
    }

    /// The side to move.
    pub fn get_active_color(&self) -> (r: Color)
        ensures
            r == self@.active_color,
    {
        self.active_color
    }

    /// The castling rights still held.
    pub fn get_castling_availability(&self) -> (r: CastlingRights)
        ensures
            r@ == self@.castling,
    {
        self.castling_availability
    }

    /// The square a pawn may capture on en passant, if any.
    pub fn get_en_passant_target(&self) -> (r: Option<Coordinate>)
        ensures
            r == self@.en_passant,
    {
        self.en_passant_target
    }

    /// The number of half-moves since the last capture or pawn advance.
    pub fn get_half_move_clock(&self) -> (r: i32)
        ensures
            r == self@.half_move_clock,
    {
        self.half_move_clock
    }

    /// The number of the full move, starting at 1.
    pub fn get_full_move(&self) -> (r: i32)
        ensures
            r == self@.full_move,
    {
        self.full_move
    }

    /// The square at zero-based column `x` and row `y`; fails with
    /// `InvalidRawCoordinatePair` when either lies outside 0..8.
    fn get_square_by_coords(&self, x: i8, y: i8) -> (r: Result<&Square, Error>)
        ensures
            r is Ok <==> (0 <= x < 8 && 0 <= y < 8),
            r matches Ok(sq) ==> sq.address() == Coordinate::at(x as int, y as int) && sq.shade()
                == shade_of(Coordinate::at(x as int, y as int)) && sq.occupant()
                == self@.pieces[8 * y + x],
            r matches Err(e) ==> e == Error::InvalidRawCoordinatePair,
    {
        proof {
            use_type_invariant(self);
        }
        if x < 0 || y < 0 || x >= BOARD_WIDTH || y >= BOARD_WIDTH {
            return Err(Error::InvalidRawCoordinatePair);
        }
        let idx: usize = (8 * (y as usize) + (x as usize));
        proof {
            lemma_index_of_column_row(x as int, y as int);
        }
        Ok(&self.squares[idx])
    }

    /// The square at `coord`; fails with `InvalidRawCoordinatePair` when
    /// `coord` is not on the board.
    pub fn get_square(&self, coord: Coordinate) -> (r: Result<&Square, Error>)
        ensures
            r is Ok <==> coord.valid(),
            r matches Ok(sq) ==> sq.address() == coord && sq.shade() == shade_of(coord)
                && sq.occupant() == self@.piece_at(coord),
            r matches Err(e) ==> e == Error::InvalidRawCoordinatePair,
    {
        if !coord.is_valid() {
            return Err(Error::InvalidRawCoordinatePair);
        }
        proof {
            lemma_index_of_column_row(coord.file.num() - 1, coord.rank.num() - 1);
        }
        self.get_square_by_coords(coord.file.as_i8() - 1, coord.rank.as_i8() - 1)
    }

    /// Whether a piece of `mover_color` could capture on `target_coord`: the
    /// square exists and holds a piece of the other side.
    pub fn can_capture(&self, target_coord: &Coordinate, mover_color: &Color) -> (r: bool)
        ensures
            r == self@.enemy_at(*target_coord, *mover_color),
    {
        match self.get_square(*target_coord) {
            Ok(square) => match square.get_piece() {
                Some(piece) => *piece.get_color() != *mover_color,
                None => false,
            },
            Err(_) => false,
        }
    }

    /// Whether a piece could move to `target_coord` without capturing: the
    /// square exists and is empty. The mover's side does not matter.
    pub fn can_move(&self, target_coord: &Coordinate, _mover_color: &Color) -> (r: bool)
        ensures
            r == self@.empty_at(*target_coord),
    {
        match self.get_square(*target_coord) {
            Ok(square) => square.get_piece().is_none(),
            Err(_) => false,
        }
    }
    /// The square of the king of `color`, when exactly one stands on the board;
    /// `None` when there is none or more than one.
    pub fn find_king(&self, color: &Color) -> (r: Option<Coordinate>)
        ensures
            r is Some <==> has_single_king(self@, *color),
            forall|k: int|
                0 <= k < 64 && #[trigger] king_at(self@, *color, k) && r is Some ==> r == Some(
                    coord_at(k),
                ),
    {
        proof {
            use_type_invariant(self);
        }
        let mut found: Option<usize> = None;
        let mut k: usize = 0;
        while k < 64
            invariant
                k <= 64,
                self.squares@.len() == 64,
                squares_laid_out(self.squares@, 64),
                found is None ==> forall|j: int| 0 <= j < k ==> !king_at(self@, *color, j),
                found matches Some(f) ==> f < k && king_at(self@, *color, f as int) && forall|j: int|
                    0 <= j < k && j != f ==> !king_at(self@, *color, j),
            decreases 64 - k,
        {
            let is_king = match self.squares[k].get_piece() {
                Some(piece) => piece.is_king_of_color(color),
                None => false,
            };
            if is_king {
                match found {
                    Some(f) => {
                        proof {
                            if has_single_king(self@, *color) {
                                let u = choose|u: int|
                                    0 <= u < 64 && #[trigger] king_at(self@, *color, u) && (forall|
                                        j: int,
                                    | 0 <= j < 64 && #[trigger] king_at(self@, *color, j) ==> j == u);
                                assert(king_at(self@, *color, f as int));
                                assert(king_at(self@, *color, k as int));
                            }
                        }
                        return None;
                    },
                    None => {
                        found = Some(k);
                    },
                }
            }
            k = k + 1;
        }
        match found {
            Some(f) => {
                proof {
                    assert(king_at(self@, *color, f as int));
                    assert(has_single_king(self@, *color));
                }
                Some(*self.squares[f].get_coord())
            },
            None => {
                proof {
                    if has_single_king(self@, *color) {
                        let u = choose|u: int|
                            0 <= u < 64 && #[trigger] king_at(self@, *color, u) && (forall|j: int|
                                0 <= j < 64 && #[trigger] king_at(self@, *color, j) ==> j == u);
                        assert(king_at(self@, *color, u));
                    }
                }
                None
            },
        }
    }

    /// Whether the piece at index `k` belongs to `attacker` and has `target`
    /// among its destinations.
    fn attacks_from_index(&self, k: usize, target: &Coordinate, attacker: &Color) -> (r: bool)
        requires
            k < 64,
        ensures
            r == attacks_from(self@, k as int, *target, *attacker),
    {
        proof {
            use_type_invariant(self);
        }
        let square = &self.squares[k];
        match square.get_piece() {
            Some(piece) => {
                if *piece.get_color() == *attacker {
                    let moves = piece.get_moves(self, square.get_coord());
                    contains_coord(&moves, target)
                } else {
                    false
                }
            },
            None => false,
        }
    }

    /// Whether the king of `king_color` stands on a destination of some piece of
    /// the other side. The board must hold exactly one king of that side.
    pub fn is_in_check(&self, king_color: &Color) -> (r: bool)
        requires
            has_single_king(self@, *king_color),
        ensures
            r == in_check(self@, *king_color),
    {
        proof {
            use_type_invariant(self);
        }
        let mut king_idx: usize = 0;
        while king_idx < 64
            invariant_except_break
                forall|j: int| 0 <= j < king_idx ==> !king_at(self@, *king_color, j),
            invariant
                self.squares@.len() == 64,
                has_single_king(self@, *king_color),
            ensures
                king_idx < 64 ==> king_at(self@, *king_color, king_idx as int),
                king_idx >= 64 ==> forall|j: int| 0 <= j < 64 ==> !king_at(self@, *king_color, j),
            decreases 64 - king_idx,
        {
            let found = match self.squares[king_idx].get_piece() {
                Some(piece) => piece.is_king_of_color(king_color),
                None => false,
            };
            if found {
                break ;
            }
            king_idx = king_idx + 1;
        }
        proof {
            if king_idx >= 64 {
                let k = choose|k: int|
                    0 <= k < 64 && #[trigger] king_at(self@, *king_color, k) && (forall|j: int|
                        0 <= j < 64 && #[trigger] king_at(self@, *king_color, j) ==> j == k);
                assert(king_at(self@, *king_color, k));
                assert(false);
            }
        }
        let king_coord = *self.squares[king_idx].get_coord();
        let attacker = king_color.other();
        let mut k: usize = 0;
        while k < 64
            invariant
                self.squares@.len() == 64,
                squares_laid_out(self.squares@, 64),
                king_idx < 64,
                king_at(self@, *king_color, king_idx as int),
                has_single_king(self@, *king_color),
                king_coord == coord_at(king_idx as int),
                attacker == king_color.opponent(),
                forall|j: int| 0 <= j < k ==> !attacks_from(self@, j, king_coord, attacker),
            decreases 64 - k,
        {
            if self.attacks_from_index(k, &king_coord, &attacker) {
                proof {
                    assert(in_check(self@, *king_color)) by {
                        assert(king_at(self@, *king_color, king_idx as int));
                        assert(attacks_from(self@, k as int, king_coord, attacker));
                    }
                }
                return true;
            }
            k = k + 1;
        }
        proof {
            if in_check(self@, *king_color) {
                let w = choose|w: int|
                    0 <= w < 64 && #[trigger] king_at(self@, *king_color, w) && attacked_by(
                        self@,
                        coord_at(w),
                        king_color.opponent(),
                    );
                let u = choose|u: int|
                    0 <= u < 64 && #[trigger] king_at(self@, *king_color, u) && (forall|j: int|
                        0 <= j < 64 && #[trigger] king_at(self@, *king_color, j) ==> j == u);
                assert(w == u);
                assert(king_idx as int == u);
                let a = choose|a: int|
                    0 <= a < 64 && #[trigger] attacks_from(self@, a, coord_at(w), king_color.opponent());
                assert(!attacks_from(self@, a, king_coord, attacker));
            }
        }
        false
    }
}

} // verus!
