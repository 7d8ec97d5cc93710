use vstd::prelude::*;

verus! {

/// A cell of the board: `x` is the row (rank), `y` the column (file).
#[derive(Debug, Clone, Copy, PartialEq, Eq, Structural)]
pub struct Position {
    pub x: usize,
    pub y: usize,
}

impl Position {
    /// Both coordinates lie in `0..8`.
    pub open spec fn in_bounds(self) -> bool {
        self.x < 8 && self.y < 8
    }
}

#[derive(Debug, Clone, Copy, PartialEq, Eq, Structural)]
pub enum PieceType {
    Bishop,
    King,
    Knight,
    Pawn,
    Queen,
    Rook,
}

#[derive(Debug, Clone, Copy, PartialEq, Eq, Structural)]
pub enum PieceColor {
    Black,
    White,
}

#[derive(Debug, Clone, Copy, PartialEq, Eq, Structural)]
pub struct Piece {
    pub piece_type: PieceType,
    pub piece_color: PieceColor,
}

impl PieceType {
    pub open spec fn spec_symbol(self) -> char {
        match self {
            PieceType::King => 'K',
            PieceType::Queen => 'Q',
            PieceType::Rook => 'R',
            PieceType::Bishop => 'B',
            PieceType::Knight => 'N',
            PieceType::Pawn => 'p',
        }
    }

    /// The letter that stands for this kind of piece in a printed board.
    pub fn symbol(&self) -> (c: char)
        ensures
            c == self.spec_symbol(),
    {
        match self {
            PieceType::King => 'K',
            PieceType::Queen => 'Q',
            PieceType::Rook => 'R',
            PieceType::Bishop => 'B',
            PieceType::Knight => 'N',
            PieceType::Pawn => 'p',
        }
    }
}

impl PieceColor {
    /// The other side.
    pub open spec fn opponent(self) -> PieceColor {
        match self {
            PieceColor::White => PieceColor::Black,
            PieceColor::Black => PieceColor::White,
        }
    }

    pub open spec fn spec_symbol(self) -> char {
        match self {
            PieceColor::White => 'w',
            PieceColor::Black => 'b',
        }
    }

    /// The letter that stands for this side in a printed board.
    pub fn symbol(&self) -> (c: char)
        ensures
            c == self.spec_symbol(),
    {
        match self {
            PieceColor::White => 'w',
            PieceColor::Black => 'b',
        }
    }
}

impl Piece {
    pub fn new(piece_type: PieceType, piece_color: PieceColor) -> (r: Self)
        ensures
            r.piece_type == piece_type,
            r.piece_color == piece_color,
    {
        Self { piece_type, piece_color }
    }
}

} // verus!
