use vstd::prelude::*;

use crate::piece::{Piece, PieceColor, PieceType, Position};
use crate::rules::{
    as_option, cell, destinations, holds_color, lemma_destinations_in_bounds, moves_at, opt_view,
    pos, Grid,
};

verus! {

/// A direction of cursor movement; `Up` and `Down` change the row, `Left`
/// and `Right` the column.
pub enum Direction {
    Down,
    Up,
    Left,
    Right,
}

/// The state of one game: the grid, whose turn it is, the cursor, the
/// selection with its cached moves, the check flag and the captured pieces.
#[derive(Debug, Clone)]
pub struct Board {
    pub board: Grid,
    pub on_turn: PieceColor,
    pub cursor_position: Position,
    pub currently_legal_moves: Option<Vec<Position>>,
    pub is_check: bool,
    pub captured_pieces: Vec<Piece>,
    pub selected_position: Option<Position>,
    pub debugger: Vec<String>,
}

/// The piece that starts on column `y` of a back rank.
pub open spec fn back_rank_kind(y: int) -> PieceType {
    if y == 0 || y == 7 {
        PieceType::Rook
    } else if y == 1 || y == 6 {
        PieceType::Knight
    } else if y == 2 || y == 5 {
        PieceType::Bishop
    } else if y == 3 {
        PieceType::Queen
    } else {
        PieceType::King
    }
}

/// The occupant of `(x, y)` in the starting layout: Black on rows 0 and 1,
/// White on rows 6 and 7, pawns on the inner of the two rows.
pub open spec fn start_cell(x: int, y: int) -> Option<Piece> {
    if x == 0 {
        Some(Piece { piece_type: back_rank_kind(y), piece_color: PieceColor::Black })
    } else if x == 1 {
        Some(Piece { piece_type: PieceType::Pawn, piece_color: PieceColor::Black })
    } else if x == 6 {
        Some(Piece { piece_type: PieceType::Pawn, piece_color: PieceColor::White })
    } else if x == 7 {
        Some(Piece { piece_type: back_rank_kind(y), piece_color: PieceColor::White })
    } else {
        None
    }
}

/// The cursor after one step in `d`, wrapping at every edge.
pub open spec fn cursor_step(p: Position, d: Direction) -> Position {
    match d {
        Direction::Up => Position { x: ((p.x + 7) % 8) as usize, y: p.y },
        Direction::Down => Position { x: ((p.x + 1) % 8) as usize, y: p.y },
        Direction::Left => Position { x: p.x, y: ((p.y + 7) % 8) as usize },
        Direction::Right => Position { x: p.x, y: ((p.y + 1) % 8) as usize },
    }
}

/// The `i`-th cell in row-major order.
pub open spec fn square(i: int) -> Position {
    pos(i / 8, i % 8)
}

/// The occupant of cell `p`.
pub open spec fn at(g: Grid, p: Position) -> Option<Piece> {
    cell(g, p.x as int, p.y as int)
}

/// The last cell among the first `n` in row-major order that holds the king
/// of `color`; `(0, 0)` when there is none.
pub open spec fn king_search(g: Grid, color: PieceColor, n: int) -> Position
    decreases n,
{
    if n <= 0 {
        pos(0, 0)
    } else if at(g, square(n - 1)) == Some(Piece { piece_type: PieceType::King, piece_color: color }) {
        square(n - 1)
    } else {
        king_search(g, color, n - 1)
    }
}

/// Where the king of `color` stands. A game holds one king of each color;
/// should a grid hold several, this is the last in row-major order, and
/// `(0, 0)` should it hold none.
pub open spec fn king_position(g: Grid, color: PieceColor) -> Position {
    king_search(g, color, 64)
}

/// The piece on `from` may move to `target` by its own rule.
pub open spec fn attacks(g: Grid, from: Position, target: Position) -> bool {
    match at(g, from) {
        Some(pc) => destinations(pc.piece_type, g, pc.piece_color, from.x as int, from.y as int).contains(
            target,
        ),
        None => false,
    }
}

/// After a move by `mover`, the opposing king stands on a cell that some
/// piece on the board may move to.
pub open spec fn in_check(g: Grid, mover: PieceColor) -> bool {
    exists|i: int| 0 <= i < 64 && #[trigger] attacks(g, square(i), king_position(g, mover.opponent()))
}

/// `v` holds `p`.
fn contains_position(v: &Vec<Position>, p: &Position) -> (r: bool)
    ensures
        r == v@.contains(*p),
{
    let mut i: usize = 0;
    while i < v.len()
        invariant
            i <= v.len(),
            forall|j: int| 0 <= j < i ==> v@[j] != *p,
        decreases v.len() - i,
    {
        if v[i] == *p {
            return true;
        }
        i += 1;
    }
    false
}

impl Board {
    /// `p` holds a piece of the side on turn.
    pub open spec fn selectable(&self, p: Position) -> bool {
        holds_color(self.board, p.x as int, p.y as int, self.on_turn)
    }

    /// `next` is this board after selecting `p`: a piece of the side on turn
    /// becomes the selection with the moves of its rule cached; any other cell
    /// clears both. Nothing else changes.
    pub open spec fn selects(&self, p: Position, next: Board) -> bool {
        &&& next.board == self.board
        &&& next.on_turn == self.on_turn
        &&& next.cursor_position == self.cursor_position
        &&& next.is_check == self.is_check
        &&& next.captured_pieces == self.captured_pieces
        &&& next.debugger == self.debugger
        &&& if self.selectable(p) {
            &&& next.selected_position == Some(p)
            &&& opt_view(next.currently_legal_moves) == as_option(
                moves_at(at(self.board, p)->0.piece_type, self.board, p),
            )
        } else {
            &&& next.selected_position is None
            &&& next.currently_legal_moves is None
        }
    }

    /// `to` is among the cached moves.
    pub open spec fn offers(&self, to: Position) -> bool {
        self.currently_legal_moves is Some && self.currently_legal_moves->0@.contains(to)
    }

    /// A move to `to` takes effect: a cell is selected, it holds a piece, and
    /// `to` is among the cached moves.
    pub open spec fn can_commit(&self, to: Position) -> bool {
        &&& self.selected_position is Some
        &&& at(self.board, self.selected_position->0) is Some
        &&& self.currently_legal_moves is Some
        &&& self.currently_legal_moves->0@.contains(to)
    }

    /// `next` is this board after the selected piece moved to `to`: the origin
    /// is emptied, a piece on `to` joins the captured ones, the mover stands
    /// on `to`, the selection is cleared, the check flag takes in whether the
    /// opposing king is now attacked, and the turn passes.
    pub open spec fn commits(&self, to: Position, next: Board) -> bool {
        let from = self.selected_position->0;
        let mover = at(self.board, from)->0;
        &&& forall|x: int, y: int|
            0 <= x < 8 && 0 <= y < 8 ==> #[trigger] cell(next.board, x, y) == if pos(x, y) == to {
                Some(mover)
            } else if pos(x, y) == from {
                None
            } else {
                cell(self.board, x, y)
            }
        &&& next.captured_pieces@ == if to != from && at(self.board, to) is Some {
            self.captured_pieces@.push(at(self.board, to)->0)
        } else {
            self.captured_pieces@
        }
        &&& next.selected_position is None
        &&& next.currently_legal_moves is None
        &&& next.is_check == (self.is_check || in_check(next.board, self.on_turn))
        &&& next.on_turn == self.on_turn.opponent()
        &&& next.cursor_position == self.cursor_position
        &&& next.debugger == self.debugger
    }

    /// The coordinates the board holds are on the board: the cursor, the
    /// selection and each cached move.
    pub open spec fn wf(&self) -> bool {
        &&& self.cursor_position.in_bounds()
        &&& (self.selected_position matches Some(p) ==> p.in_bounds())
        &&& (self.currently_legal_moves matches Some(v) ==> forall|i: int|
            0 <= i < v@.len() ==> (#[trigger] v@[i]).in_bounds())
    }

    /// Fresh game state around grid `g`: White to move, cursor on `(7, 0)`,
    /// nothing selected, no check, nothing captured.
    pub open spec fn is_fresh(&self, g: Grid) -> bool {
        &&& self.board == g
        &&& self.on_turn == PieceColor::White
        &&& self.cursor_position == Position { x: 7, y: 0 }
        &&& self.selected_position is None
        &&& self.currently_legal_moves is None
        &&& !self.is_check
        &&& self.captured_pieces@.len() == 0
        &&& self.debugger@.len() == 0
    }

    pub fn is_cell_empty(&self, position: Position) -> (r: bool)
        requires
            position.in_bounds(),
        ensures
            r == (cell(self.board, position.x as int, position.y as int) is None),
    {
        self.board[position.x][position.y].is_none()
    }

    pub fn get_piece_color_in_position(&self, position: Position) -> (r: Option<PieceColor>)
        requires
            position.in_bounds(),
        ensures
            r == (match cell(self.board, position.x as int, position.y as int) {
                Some(pc) => Some(pc.piece_color),
                None => None,
            }),
    {
        match self.board[position.x][position.y] {
            Some(piece) => Some(piece.piece_color),
            None => None,
        }
    }

    /// Moves the cursor one cell in `direction`, wrapping from one edge of the
    /// board to the opposite one; nothing else changes.
    pub fn move_cursor(&mut self, direction: Direction)
        requires
            old(self).cursor_position.in_bounds(),
        ensures
            final(self).cursor_position == cursor_step(old(self).cursor_position, direction),
            final(self).cursor_position.in_bounds(),
            *final(self) == (Board { cursor_position: final(self).cursor_position, ..*old(self) }),
    {
        match direction {
            Direction::Up => {
                if self.cursor_position.x == 0 {
                    self.cursor_position.x = 7;
                } else {
                    self.cursor_position.x -= 1;
                }
            },
            Direction::Down => {
                if self.cursor_position.x == 7 {
                    self.cursor_position.x = 0;
                } else {
                    self.cursor_position.x += 1;
                }
            },
            Direction::Left => {
                if self.cursor_position.y == 0 {
                    self.cursor_position.y = 7;
                } else {
                    self.cursor_position.y -= 1;
                }
            },
            Direction::Right => {
                if self.cursor_position.y == 7 {
                    self.cursor_position.y = 0;
                } else {
                    self.cursor_position.y += 1;
                }
            },
        }
    }

    /// Selects `position` when it holds a piece of the side on turn and
    /// caches the moves of its rule; otherwise clears the selection.
    pub fn select_position(&mut self, position: &Position)
        requires
            old(self).wf(),
            position.in_bounds(),
        ensures
            final(self).wf(),
            old(self).selects(*position, *final(self)),
    {
        match self.board[position.x][position.y] {
            Some(piece) => {
                if piece.piece_color == self.on_turn {
                    self.selected_position = Some(*position);
                    self.currently_legal_moves = piece.piece_type.legal_moves(self);
                    proof {
                        lemma_destinations_in_bounds(
                            piece.piece_type,
                            self.board,
                            piece.piece_color,
                            position.x as int,
                            position.y as int,
                        );
                    }
                } else {
                    self.selected_position = None;
                    self.currently_legal_moves = None;
                }
            },
            None => {
                self.selected_position = None;
                self.currently_legal_moves = None;
            },
        }
    }

    /// Whether the king of the side not on turn stands where some piece on
    /// the board may move.
    pub fn is_getting_checked(&mut self) -> (r: bool)
        ensures
            *final(self) == *old(self),
            r == in_check(old(self).board, old(self).on_turn),
    {
        let current_player_color = self.on_turn;
        let ghost opponent = current_player_color.opponent();
        let mut opponent_king_position = Position { x: 0, y: 0 };
        let mut i: usize = 0;
        while i < 64
            invariant
                i <= 64,
                opponent == current_player_color.opponent(),
                opponent_king_position == king_search(self.board, opponent, i as int),
            decreases 64 - i,
        {
            let x = i / 8;
            let y = i % 8;
            assert(Position { x, y } == square(i as int));
            assert(king_search(self.board, opponent, i + 1) == if at(self.board, square(i as int))
                == Some(Piece { piece_type: PieceType::King, piece_color: opponent }) {
                square(i as int)
            } else {
                king_search(self.board, opponent, i as int)
            });
            if let Some(piece) = self.board[x][y] {
                if piece.piece_type == PieceType::King && piece.piece_color != current_player_color {
                    opponent_king_position = Position { x, y };
                }
            }
            i += 1;
        }
        let mut is_check = false;
        i = 0;
        while i < 64
            invariant
                i <= 64,
                opponent_king_position == king_position(self.board, opponent),
                is_check == exists|j: int|
                    0 <= j < i && #[trigger] attacks(self.board, square(j), opponent_king_position),
            decreases 64 - i,
        {
            let x = i / 8;
            let y = i % 8;
            let here = Position { x, y };
            assert(here == square(i as int));
            if let Some(piece) = self.board[x][y] {
                let legal_moves = piece.piece_type.moves_from(self, &here, piece.piece_color);
                if contains_position(&legal_moves, &opponent_king_position) {
                    is_check = true;
                }
            }
            assert(is_check == attacks(self.board, square(i as int), opponent_king_position) || exists|j: int|
                    0 <= j < i && #[trigger] attacks(self.board, square(j), opponent_king_position));
            i += 1;
        }
        is_check
    }

    /// Moves the selected piece to `to` when `to` is among the cached moves:
    /// see `commits`. Otherwise nothing changes.
    pub fn move_piece(&mut self, to: &Position)
        requires
            old(self).wf(),
        ensures
            final(self).wf(),
            old(self).can_commit(*to) ==> old(self).commits(*to, *final(self)),
            !old(self).can_commit(*to) ==> *final(self) == *old(self),
            final(self).on_turn == if old(self).can_commit(*to) {
                old(self).on_turn.opponent()
            } else {
                old(self).on_turn
            },
    {
        if let Some(from) = self.selected_position {
            if let Some(selected_piece) = self.board[from.x][from.y] {
                let legal = match &self.currently_legal_moves {
                    Some(legal_moves) => contains_position(legal_moves, to),
                    None => false,
                };
                if legal {
                    let ghost before = *self;
                    // The origin is emptied first, so a piece is captured
                    // only from another cell.
                    self.board[from.x][from.y] = None;
                    if let Some(piece) = self.board[to.x][to.y] {
                        self.captured_pieces.push(piece);
                    }
                    self.board[to.x][to.y] = Some(selected_piece);
                    self.selected_position = None;
                    self.currently_legal_moves = None;
                    if self.is_getting_checked() {
                        self.is_check = true;
                    }
                    self.switch_turn();
                    assert(before.commits(*to, *self));
                }
            }
        }
    }

    /// Passes the turn to the other side.
    fn switch_turn(&mut self)
        ensures
            *final(self) == (Board { on_turn: old(self).on_turn.opponent(), ..*old(self) }),
    {
        match self.on_turn {
            PieceColor::White => self.on_turn = PieceColor::Black,
            PieceColor::Black => self.on_turn = PieceColor::White,
        }
    }

    /// The confirm action at the cursor: moves the selected piece there when
    /// the cursor is on one of the cached moves, and selects the cursor's
    /// cell otherwise.
    pub fn confirm_at_cursor(&mut self)
        requires
            old(self).wf(),
        ensures
            final(self).wf(),
            old(self).can_commit(old(self).cursor_position) ==> old(self).commits(
                old(self).cursor_position,
                *final(self),
            ),
            old(self).offers(old(self).cursor_position) && !old(self).can_commit(
                old(self).cursor_position,
            ) ==> *final(self) == *old(self),
            !old(self).offers(old(self).cursor_position) ==> old(self).selects(
                old(self).cursor_position,
                *final(self),
            ),
    {
        let cursor_position = self.cursor_position;
        let on_move = match &self.currently_legal_moves {
            Some(legal_moves) => contains_position(legal_moves, &cursor_position),
            None => false,
        };
        if on_move {
            self.move_piece(&cursor_position);
        } else {
            self.select_position(&cursor_position);
        }
    }

    /// A board with no pieces on it.
    pub fn init_empty() -> (r: Self)
        ensures
            r.wf(),
            r.is_fresh(r.board),
            forall|x: int, y: int| 0 <= x < 8 && 0 <= y < 8 ==> cell(r.board, x, y) is None,
    {
        Self {
            board: [[None;8];8],
            on_turn: PieceColor::White,
            cursor_position: Position { x: 7, y: 0 },
            selected_position: None,
            currently_legal_moves: None,
            is_check: false,
            captured_pieces: Vec::with_capacity(32),
            debugger: Vec::new(),
        }
    }
}

/// Row of the starting layout holding the officers of `color`.
fn back_rank(color: PieceColor) -> (r: [Option<Piece>; 8])
    ensures
        forall|y: int|
            0 <= y < 8 ==> r[y] == Some(Piece { piece_type: back_rank_kind(y), piece_color: color }),
{
    [
        Some(Piece::new(PieceType::Rook, color)),
        Some(Piece::new(PieceType::Knight, color)),
        Some(Piece::new(PieceType::Bishop, color)),
        Some(Piece::new(PieceType::Queen, color)),
        Some(Piece::new(PieceType::King, color)),
        Some(Piece::new(PieceType::Bishop, color)),
        Some(Piece::new(PieceType::Knight, color)),
        Some(Piece::new(PieceType::Rook, color)),
    ]
}

/// Row of the starting layout holding the pawns of `color`.
fn pawn_rank(color: PieceColor) -> (r: [Option<Piece>; 8])
    ensures
        forall|y: int|
            0 <= y < 8 ==> r[y] == Some(Piece { piece_type: PieceType::Pawn, piece_color: color }),
{
    let p = Some(Piece::new(PieceType::Pawn, color));
    [p, p, p, p, p, p, p, p]
}

impl Default for Board {
    /// The standard starting position, White to move.
    fn default() -> (r: Self)
        ensures
            r.wf(),
            r.is_fresh(r.board),
            forall|x: int, y: int| 0 <= x < 8 && 0 <= y < 8 ==> cell(r.board, x, y) == start_cell(x, y),
    {
        let black_officers = back_rank(PieceColor::Black);
        let white_officers = back_rank(PieceColor::White);
        let black_pawns = pawn_rank(PieceColor::Black);
        let white_pawns = pawn_rank(PieceColor::White);
        let empty: [Option<Piece>; 8] = [None, None, None, None, None, None, None, None];
        let board: Grid = [
            black_officers,
            black_pawns,
            empty,
            empty,
            empty,
            empty,
            white_pawns,
            white_officers,
        ];
        assert forall|x: int, y: int| 0 <= x < 8 && 0 <= y < 8 implies cell(board, x, y) == start_cell(
            x,
            y,
        ) by {
            assert(empty[y] is None);
            if x == 0 {
                assert(board[x] == black_officers);
            } else if x == 1 {
                assert(board[x] == black_pawns);
            } else if x == 6 {
                assert(board[x] == white_pawns);
            } else if x == 7 {
                assert(board[x] == white_officers);
            } else {
                assert(board[x] == empty);
            }
        }
        Self {
            board,
            on_turn: PieceColor::White,
            cursor_position: Position { x: 7, y: 0 },
            selected_position: None,
            currently_legal_moves: None,
            is_check: false,
            captured_pieces: Vec::with_capacity(32),
            debugger: Vec::new(),
        }
    }
}

} // verus!
