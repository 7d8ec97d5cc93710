//! Rule engine of a two-player terminal chess game: board state, the move
//! rules of each kind of piece, check detection and turn-taking.

pub mod board;
mod game;
pub mod laws;
mod menu;
pub mod moves;
mod piece;
pub mod rules;

pub use board::{Board, Direction};
pub use game::{CurrentScreen, Game};
pub use menu::{MenuState, MENU_ITEM_COUNT};
pub use moves::{Bishop, King, Knight, Move, Pawn, Queen, Rook, explore_moves};
pub use piece::{Piece, PieceColor, PieceType, Position};
pub use rules::Grid;
