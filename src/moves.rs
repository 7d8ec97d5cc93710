//! Move generation: one executable strategy per kind of piece, each proved
//! to produce exactly the sequence that `rules` describes.
use vstd::prelude::*;

use crate::board::Board;
use crate::piece::{PieceColor, PieceType, Position};
use crate::rules::{
    as_option, cell, destinations, king_offsets, knight_offsets, moves_at, opt_view,
    pawn_capture, pawn_moves, pawn_pushes, ray, span, step, steps,
};

verus! {

/// What the rule of `kind` gives for the selected cell of `b`: nothing when
/// no cell is selected or the selected cell is empty.
pub open spec fn selection_moves(kind: PieceType, b: &Board) -> Option<Seq<Position>> {
    match b.selected_position {
        Some(p) => as_option(moves_at(kind, b.board, p)),
        None => None,
    }
}

/// A move rule, applied to the selected cell of a board.
pub trait Move {
    /// The kind of piece whose rule this is.
    spec fn kind() -> PieceType;

    /// The cells the piece on the selected cell may move to by this rule, or
    /// `None` when there are none.
    fn available_moves(board: &Board) -> (r: Option<Vec<Position>>)
        requires
            board.wf(),
        ensures
            opt_view(r) == selection_moves(Self::kind(), board),
    ;
}

/// Walks from `position` in direction `(dx, dy)` and appends the cells of the
/// ray to `legal_moves`: empty cells one after another, then an opposing piece
/// that blocks the way; a friendly piece or the edge ends the walk.
pub fn explore_moves(
    position: &Position,
    legal_moves: &mut Vec<Position>,
    board: &Board,
    color: PieceColor,
    dx: isize,
    dy: isize,
)
    requires
        position.in_bounds(),
        dx != 0 || dy != 0,
    ensures
        final(legal_moves)@ == old(legal_moves)@ + ray(
            board.board,
            color,
            position.x as int,
            position.y as int,
            dx as int,
            dy as int,
        ),
    decreases span(position.x as int, dx as int) + span(position.y as int, dy as int),
{
    proof {
        reveal(ray);
    }
    if dx < -7 || dx > 7 || dy < -7 || dy > 7 {
        assert(old(legal_moves)@ + seq![] =~= old(legal_moves)@);
        return;
    }
    let new_x = position.x as isize + dx;
    let new_y = position.y as isize + dy;
    if new_x < 0 || new_x > 7 || new_y < 0 || new_y > 7 {
        assert(old(legal_moves)@ + seq![] =~= old(legal_moves)@);
        return;
    }
    let new_position = Position { x: new_x as usize, y: new_y as usize };
    match board.board[new_x as usize][new_y as usize] {
        Some(piece) => {
            if piece.piece_color != color {
                legal_moves.push(new_position);
            } else {
                assert(old(legal_moves)@ + seq![] =~= old(legal_moves)@);
            }
        },
        None => {
            legal_moves.push(new_position);
            explore_moves(&new_position, legal_moves, board, color, dx, dy);
            assert(legal_moves@ =~= old(legal_moves)@ + ray(
                board.board,
                color,
                position.x as int,
                position.y as int,
                dx as int,
                dy as int,
            ));
        },
    }
}

/// Appends the target of offset `(dx, dy)` from `(x, y)` when it is on the
/// board and not held by a piece of `color`.
fn try_step(
    board: &Board,
    x: usize,
    y: usize,
    color: PieceColor,
    dx: isize,
    dy: isize,
    legal_moves: &mut Vec<Position>,
)
    requires
        x < 8,
        y < 8,
        -2 <= dx <= 2,
        -2 <= dy <= 2,
    ensures
        final(legal_moves)@ == old(legal_moves)@ + step(
            board.board,
            color,
            x as int,
            y as int,
            (dx as int, dy as int),
        ),
{
    let new_x = x as isize + dx;
    let new_y = y as isize + dy;
    if 0 <= new_x && new_x <= 7 && 0 <= new_y && new_y <= 7 {
        let new_position = Position { x: new_x as usize, y: new_y as usize };
        match board.board[new_x as usize][new_y as usize] {
            Some(piece) => {
                if piece.piece_color != color {
                    legal_moves.push(new_position);
                } else {
                    assert(old(legal_moves)@ + seq![] =~= old(legal_moves)@);
                }
            },
            None => legal_moves.push(new_position),
        }
    } else {
        assert(old(legal_moves)@ + seq![] =~= old(legal_moves)@);
    }
}

/// The steps from `(x, y)` by each offset of `offsets` in turn.
fn step_moves(
    board: &Board,
    x: usize,
    y: usize,
    color: PieceColor,
    offsets: &[(isize, isize); 8],
    spec_offsets: Ghost<Seq<(int, int)>>,
) -> (r: Vec<Position>)
    requires
        x < 8,
        y < 8,
        spec_offsets@.len() == 8,
        forall|i: int|
            0 <= i < 8 ==> (offsets[i].0 as int, offsets[i].1 as int) == #[trigger] spec_offsets@[i],
        forall|i: int|
            0 <= i < 8 ==> -2 <= #[trigger] offsets[i].0 <= 2 && -2 <= offsets[i].1 <= 2,
    ensures
        r@ == steps(board.board, color, x as int, y as int, spec_offsets@),
{
    let mut legal_moves: Vec<Position> = Vec::with_capacity(8);
    let mut i: usize = 0;
    assert(spec_offsets@.take(0) =~= seq![]);
    while i < 8
        invariant
            i <= 8,
            x < 8,
            y < 8,
            spec_offsets@.len() == 8,
            forall|k: int|
                0 <= k < 8 ==> (offsets[k].0 as int, offsets[k].1 as int) == #[trigger] spec_offsets@[k],
            forall|k: int|
                0 <= k < 8 ==> -2 <= #[trigger] offsets[k].0 <= 2 && -2 <= offsets[k].1 <= 2,
            legal_moves@ == steps(board.board, color, x as int, y as int, spec_offsets@.take(i as int)),
        decreases 8 - i,
    {
        let (dx, dy) = offsets[i];
        assert(spec_offsets@[i as int] == (dx as int, dy as int));
        try_step(board, x, y, color, dx, dy, &mut legal_moves);
        assert(spec_offsets@.take(i + 1).drop_last() =~= spec_offsets@.take(i as int));
        assert(spec_offsets@.take(i + 1).last() == spec_offsets@[i as int]);
        i += 1;
    }
    assert(spec_offsets@.take(8) =~= spec_offsets@);
    legal_moves
}

/// The king's steps from `(x, y)`: one cell in each of the eight directions.
fn king_steps(board: &Board, x: usize, y: usize, color: PieceColor) -> (r: Vec<Position>)
    requires
        x < 8,
        y < 8,
    ensures
        r@ == steps(board.board, color, x as int, y as int, king_offsets()),
{
    let offsets: [(isize, isize); 8] = [
        (1, 0),
        (1, 1),
        (1, -1),
        (0, 1),
        (0, -1),
        (-1, 0),
        (-1, 1),
        (-1, -1),
    ];
    step_moves(board, x, y, color, &offsets, Ghost(king_offsets()))
}

/// The knight's jumps from `(x, y)`: two cells one way and one cell across.
fn knight_steps(board: &Board, x: usize, y: usize, color: PieceColor) -> (r: Vec<Position>)
    requires
        x < 8,
        y < 8,
    ensures
        r@ == steps(board.board, color, x as int, y as int, knight_offsets()),
{
    let offsets: [(isize, isize); 8] = [
        (2, 1),
        (2, -1),
        (-2, 1),
        (-2, -1),
        (1, 2),
        (1, -2),
        (-1, 2),
        (-1, -2),
    ];
    step_moves(board, x, y, color, &offsets, Ghost(knight_offsets()))
}

/// Appends `(x, y)` when it holds a piece of `target`: a pawn's capture.
fn try_capture(board: &Board, x: usize, y: isize, target: PieceColor, legal_moves: &mut Vec<Position>)
    requires
        x < 8,
        -1 <= y <= 8,
    ensures
        final(legal_moves)@ == old(legal_moves)@ + pawn_capture(
            board.board,
            target.opponent(),
            x as int,
            y as int,
        ),
{
    if 0 <= y && y <= 7 {
        match board.board[x][y as usize] {
            Some(piece) => {
                if piece.piece_color == target {
                    legal_moves.push(Position { x, y: y as usize });
                    return;
                }
            },
            None => {},
        }
    }
    assert(old(legal_moves)@ + seq![] =~= old(legal_moves)@);
}

/// The moves of a pawn of `color` standing at `(x, y)`.
fn pawn_moves_from(board: &Board, x: usize, y: usize, color: PieceColor) -> (r: Vec<Position>)
    requires
        x < 8,
        y < 8,
    ensures
        r@ == pawn_moves(board.board, color, x as int, y as int),
{
    let mut legal_moves: Vec<Position> = Vec::with_capacity(4);
    let (next_x, far_x, home, opponent): (usize, usize, usize, PieceColor) = match color {
        PieceColor::White => {
            if x == 0 {
                return legal_moves;
            }
            (x - 1, if x >= 2 { x - 2 } else { 0 }, 6, PieceColor::Black)
        },
        PieceColor::Black => {
            if x == 7 {
                return legal_moves;
            }
            (x + 1, if x + 2 <= 7 { x + 2 } else { 7 }, 1, PieceColor::White)
        },
    };
    if board.board[next_x][y].is_none() {
        legal_moves.push(Position { x: next_x, y });
        if x == home && board.board[far_x][y].is_none() {
            legal_moves.push(Position { x: far_x, y });
        }
    }
    assert(legal_moves@ == pawn_pushes(board.board, color, x as int, y as int));
    try_capture(board, next_x, y as isize - 1, opponent, &mut legal_moves);
    try_capture(board, next_x, y as isize + 1, opponent, &mut legal_moves);
    legal_moves
}

/// Appends the four rays of a rook from `p`.
fn rook_rays_from(p: &Position, board: &Board, color: PieceColor, legal_moves: &mut Vec<Position>)
    requires
        p.in_bounds(),
    ensures
        final(legal_moves)@ == old(legal_moves)@ + crate::rules::rook_rays(
            board.board,
            color,
            p.x as int,
            p.y as int,
        ),
{
    explore_moves(p, legal_moves, board, color, 1, 0);
    explore_moves(p, legal_moves, board, color, -1, 0);
    explore_moves(p, legal_moves, board, color, 0, 1);
    explore_moves(p, legal_moves, board, color, 0, -1);
    assert(legal_moves@ =~= old(legal_moves)@ + crate::rules::rook_rays(
        board.board,
        color,
        p.x as int,
        p.y as int,
    ));
}

/// Appends the four rays of a bishop from `p`.
fn bishop_rays_from(p: &Position, board: &Board, color: PieceColor, legal_moves: &mut Vec<Position>)
    requires
        p.in_bounds(),
    ensures
        final(legal_moves)@ == old(legal_moves)@ + crate::rules::bishop_rays(
            board.board,
            color,
            p.x as int,
            p.y as int,
        ),
{
    explore_moves(p, legal_moves, board, color, 1, 1);
    explore_moves(p, legal_moves, board, color, -1, 1);
    explore_moves(p, legal_moves, board, color, -1, -1);
    explore_moves(p, legal_moves, board, color, 1, -1);
    assert(legal_moves@ =~= old(legal_moves)@ + crate::rules::bishop_rays(
        board.board,
        color,
        p.x as int,
        p.y as int,
    ));
}

impl PieceType {
    /// The cells a piece of this kind and of `color` standing at `p` may move
    /// to, in the order its rule produces them.
    pub fn moves_from(&self, board: &Board, p: &Position, color: PieceColor) -> (r: Vec<Position>)
        requires
            p.in_bounds(),
        ensures
            r@ == destinations(*self, board.board, color, p.x as int, p.y as int),
    {
        match self {
            PieceType::King => king_steps(board, p.x, p.y, color),
            PieceType::Knight => knight_steps(board, p.x, p.y, color),
            PieceType::Pawn => pawn_moves_from(board, p.x, p.y, color),
            PieceType::Rook => {
                let mut legal_moves: Vec<Position> = Vec::with_capacity(14);
                rook_rays_from(p, board, color, &mut legal_moves);
                assert(legal_moves@ =~= destinations(*self, board.board, color, p.x as int, p.y as int));
                legal_moves
            },
            PieceType::Bishop => {
                let mut legal_moves: Vec<Position> = Vec::with_capacity(13);
                bishop_rays_from(p, board, color, &mut legal_moves);
                assert(legal_moves@ =~= destinations(*self, board.board, color, p.x as int, p.y as int));
                legal_moves
            },
            PieceType::Queen => {
                let mut legal_moves: Vec<Position> = Vec::with_capacity(27);
                rook_rays_from(p, board, color, &mut legal_moves);
                bishop_rays_from(p, board, color, &mut legal_moves);
                assert(legal_moves@ =~= destinations(*self, board.board, color, p.x as int, p.y as int));
                legal_moves
            },
        }
    }

    /// The moves of the selected piece by the rule of this kind: `None` when
    /// nothing is selected, the selected cell is empty, or the rule gives none.
    pub fn legal_moves(&self, board: &Board) -> (r: Option<Vec<Position>>)
        requires
            board.wf(),
        ensures
            opt_view(r) == selection_moves(*self, board),
    {
        match board.selected_position {
            Some(p) => match board.get_piece_color_in_position(p) {
                Some(color) => {
                    let legal_moves = self.moves_from(board, &p, color);
                    if legal_moves.len() == 0 {
                        None
                    } else {
                        Some(legal_moves)
                    }
                },
                None => None,
            },
            None => None,
        }
    }
}

/// The rule of the king: it moves one cell in any direction.
pub struct King;

impl Move for King {
    open spec fn kind() -> PieceType {
        PieceType::King
    }

    fn available_moves(board: &Board) -> (r: Option<Vec<Position>>) {
        PieceType::King.legal_moves(board)
    }
}

/// The rule of the queen: it moves along rows, columns and diagonals.
pub struct Queen;

impl Move for Queen {
    open spec fn kind() -> PieceType {
        PieceType::Queen
    }

    fn available_moves(board: &Board) -> (r: Option<Vec<Position>>) {
        PieceType::Queen.legal_moves(board)
    }
}

/// The rule of the rook: it moves along rows and columns.
pub struct Rook;

impl Move for Rook {
    open spec fn kind() -> PieceType {
        PieceType::Rook
    }

    fn available_moves(board: &Board) -> (r: Option<Vec<Position>>) {
        PieceType::Rook.legal_moves(board)
    }
}

/// The rule of the bishop: it moves along diagonals.
pub struct Bishop;

impl Move for Bishop {
    open spec fn kind() -> PieceType {
        PieceType::Bishop
    }

    fn available_moves(board: &Board) -> (r: Option<Vec<Position>>) {
        PieceType::Bishop.legal_moves(board)
    }
}

/// The rule of the knight: it moves by the L-shaped jump.
pub struct Knight;

impl Move for Knight {
    open spec fn kind() -> PieceType {
        PieceType::Knight
    }

    fn available_moves(board: &Board) -> (r: Option<Vec<Position>>) {
        PieceType::Knight.legal_moves(board)
    }
}

/// The rule of the pawn: it moves forward, and diagonally forward to capture.
pub struct Pawn;

impl Move for Pawn {
    open spec fn kind() -> PieceType {
        PieceType::Pawn
    }

    fn available_moves(board: &Board) -> (r: Option<Vec<Position>>) {
        PieceType::Pawn.legal_moves(board)
    }
}

impl Pawn {
    /// The moves of a white pawn on the selected cell (none when nothing is
    /// selected), whatever piece stands there.
    pub fn get_legal_moves_for_white(board: &Board) -> (r: Vec<Position>)
        requires
            board.wf(),
        ensures
            r@ == match board.selected_position {
                Some(p) => pawn_moves(board.board, PieceColor::White, p.x as int, p.y as int),
                None => seq![],
            },
    {
        match board.selected_position {
            Some(p) => pawn_moves_from(board, p.x, p.y, PieceColor::White),
            None => Vec::new(),
        }
    }

    /// The moves of a black pawn on the selected cell (none when nothing is
    /// selected), whatever piece stands there.
    pub fn get_legal_moves_for_black(board: &Board) -> (r: Vec<Position>)
        requires
            board.wf(),
        ensures
            r@ == match board.selected_position {
                Some(p) => pawn_moves(board.board, PieceColor::Black, p.x as int, p.y as int),
                None => seq![],
            },
    {
        match board.selected_position {
            Some(p) => pawn_moves_from(board, p.x, p.y, PieceColor::Black),
            None => Vec::new(),
        }
    }
}

} // verus!
