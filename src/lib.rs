//! A chess position model: an 8x8 board, the FEN text notation, pseudo-legal
//! move generation for each kind of piece, and check detection.

pub mod board;
pub mod castling;
pub mod coord;
pub mod error;
pub mod fen;
pub mod game;
pub mod moves;
pub mod piece;
pub mod square;
pub mod text;

pub use board::{get_default_castling_availability, Board, BoardModel};
pub use castling::{CastleAvailability, CastlingRights};
pub use coord::{get_coordinate, Coordinate, File, Rank};
pub use error::Error;
pub use fen::get_castle_availability_str;
pub use game::Game;
pub use piece::{Bishop, Color, King, Knight, MoveType, Pawn, Piece, Queen, Rook};
pub use square::{Square, SquareColor};
