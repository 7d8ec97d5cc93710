//! The move rules as mathematical functions of the grid: each kind of piece
//! yields the ordered sequence of cells it may move to.
use vstd::prelude::*;

use crate::piece::{Piece, PieceColor, PieceType, Position};

verus! {

/// The 8×8 grid of cells, indexed `[x][y]`; each cell is empty or holds one piece.
pub type Grid = [[Option<Piece>; 8]; 8];

pub open spec fn on_board(x: int, y: int) -> bool {
    0 <= x < 8 && 0 <= y < 8
}

pub open spec fn pos(x: int, y: int) -> Position {
    Position { x: x as usize, y: y as usize }
}

/// The occupant of cell `(x, y)`.
pub open spec fn cell(g: Grid, x: int, y: int) -> Option<Piece> {
    g[x][y]
}

/// Cell `(x, y)` holds a piece of `color`.
pub open spec fn holds_color(g: Grid, x: int, y: int, color: PieceColor) -> bool {
    cell(g, x, y) is Some && cell(g, x, y)->0.piece_color == color
}

/// How many steps in direction `d` remain from coordinate `c` before the edge.
pub open spec fn span(c: int, d: int) -> int {
    if d > 0 {
        7 - c
    } else if d < 0 {
        c
    } else {
        0
    }
}

/// The cells that a sliding piece of `color` standing at `(x, y)` reaches in
/// direction `(dx, dy)`: every empty cell in turn, then the first occupied
/// cell if it holds an opposing piece; the edge or a friendly piece ends the ray.
#[verifier::opaque]
pub open spec fn ray(g: Grid, color: PieceColor, x: int, y: int, dx: int, dy: int) -> Seq<Position>
    decreases span(x, dx) + span(y, dy),
{
    let nx = x + dx;
    let ny = y + dy;
    if (dx == 0 && dy == 0) || !on_board(nx, ny) {
        seq![]
    } else if cell(g, nx, ny) is None {
        seq![pos(nx, ny)] + ray(g, color, nx, ny, dx, dy)
    } else if cell(g, nx, ny)->0.piece_color != color {
        seq![pos(nx, ny)]
    } else {
        seq![]
    }
}

pub open spec fn rook_rays(g: Grid, color: PieceColor, x: int, y: int) -> Seq<Position> {
    ray(g, color, x, y, 1, 0) + ray(g, color, x, y, -1, 0) + ray(g, color, x, y, 0, 1) + ray(
        g,
        color,
        x,
        y,
        0,
        -1,
    )
}

pub open spec fn bishop_rays(g: Grid, color: PieceColor, x: int, y: int) -> Seq<Position> {
    ray(g, color, x, y, 1, 1) + ray(g, color, x, y, -1, 1) + ray(g, color, x, y, -1, -1) + ray(
        g,
        color,
        x,
        y,
        1,
        -1,
    )
}

pub open spec fn queen_rays(g: Grid, color: PieceColor, x: int, y: int) -> Seq<Position> {
    rook_rays(g, color, x, y) + bishop_rays(g, color, x, y)
}

/// The one-step move of a step piece by offset `d`: the target is on the
/// board and not held by a piece of its own side.
pub open spec fn step(g: Grid, color: PieceColor, x: int, y: int, d: (int, int)) -> Seq<
    Position,
> {
    let nx = x + d.0;
    let ny = y + d.1;
    if on_board(nx, ny) && !holds_color(g, nx, ny, color) {
        seq![pos(nx, ny)]
    } else {
        seq![]
    }
}

/// The steps by each offset of `offsets`, in order.
pub open spec fn steps(g: Grid, color: PieceColor, x: int, y: int, offsets: Seq<(int, int)>) -> Seq<
    Position,
>
    decreases offsets.len(),
{
    if offsets.len() == 0 {
        seq![]
    } else {
        steps(g, color, x, y, offsets.drop_last()) + step(g, color, x, y, offsets.last())
    }
}

pub open spec fn king_offsets() -> Seq<(int, int)> {
    seq![(1, 0), (1, 1), (1, -1), (0, 1), (0, -1), (-1, 0), (-1, 1), (-1, -1)]
}

pub open spec fn knight_offsets() -> Seq<(int, int)> {
    seq![(2, 1), (2, -1), (-2, 1), (-2, -1), (1, 2), (1, -2), (-1, 2), (-1, -2)]
}

/// White pawns advance toward row 0, Black pawns toward row 7.
pub open spec fn forward(color: PieceColor) -> int {
    match color {
        PieceColor::White => -1,
        PieceColor::Black => 1,
    }
}

/// The row a pawn of `color` starts on, from which it may advance two cells.
pub open spec fn home_rank(color: PieceColor) -> int {
    match color {
        PieceColor::White => 6,
        PieceColor::Black => 1,
    }
}

/// A diagonal pawn move onto `(x, y)`: only as a capture of an opposing piece.
pub open spec fn pawn_capture(g: Grid, color: PieceColor, x: int, y: int) -> Seq<Position> {
    if on_board(x, y) && holds_color(g, x, y, color.opponent()) {
        seq![pos(x, y)]
    } else {
        seq![]
    }
}

/// The pushes of a pawn: one cell forward onto an empty cell, and from the
/// home rank a second one when both cells are empty.
pub open spec fn pawn_pushes(g: Grid, color: PieceColor, x: int, y: int) -> Seq<Position> {
    let nx = x + forward(color);
    let fx = x + 2 * forward(color);
    if cell(g, nx, y) is Some {
        seq![]
    } else if x == home_rank(color) && cell(g, fx, y) is None {
        seq![pos(nx, y), pos(fx, y)]
    } else {
        seq![pos(nx, y)]
    }
}

/// The moves of a pawn of `color` at `(x, y)`: its pushes, then the capture
/// toward column `y - 1`, then the one toward column `y + 1`. A pawn on the
/// far row has none.
pub open spec fn pawn_moves(g: Grid, color: PieceColor, x: int, y: int) -> Seq<Position> {
    let nx = x + forward(color);
    if !on_board(nx, y) {
        seq![]
    } else {
        pawn_pushes(g, color, x, y) + pawn_capture(g, color, nx, y - 1) + pawn_capture(
            g,
            color,
            nx,
            y + 1,
        )
    }
}

/// The cells that a piece of kind `kind` and side `color` at `(x, y)` may move
/// to, ignoring whether the move leaves its own king attacked.
pub open spec fn destinations(
    kind: PieceType,
    g: Grid,
    color: PieceColor,
    x: int,
    y: int,
) -> Seq<Position> {
    match kind {
        PieceType::King => steps(g, color, x, y, king_offsets()),
        PieceType::Knight => steps(g, color, x, y, knight_offsets()),
        PieceType::Rook => rook_rays(g, color, x, y),
        PieceType::Bishop => bishop_rays(g, color, x, y),
        PieceType::Queen => queen_rays(g, color, x, y),
        PieceType::Pawn => pawn_moves(g, color, x, y),
    }
}

/// The moves by the rule of `kind` from `p`, for the side of the piece that
/// stands there; none from an empty cell.
pub open spec fn moves_at(kind: PieceType, g: Grid, p: Position) -> Seq<Position> {
    match cell(g, p.x as int, p.y as int) {
        Some(pc) => destinations(kind, g, pc.piece_color, p.x as int, p.y as int),
        None => seq![],
    }
}

/// "No moves" has one form: `None`.
pub open spec fn as_option(s: Seq<Position>) -> Option<Seq<Position>> {
    if s.len() == 0 {
        None
    } else {
        Some(s)
    }
}

pub open spec fn opt_view(v: Option<Vec<Position>>) -> Option<Seq<Position>> {
    match v {
        Some(v) => Some(v@),
        None => None,
    }
}

/// Every position in `s` is a cell of the board.
pub open spec fn all_in_bounds(s: Seq<Position>) -> bool {
    forall|i: int| 0 <= i < s.len() ==> (#[trigger] s[i]).in_bounds()
}

pub proof fn lemma_ray_in_bounds(g: Grid, color: PieceColor, x: int, y: int, dx: int, dy: int)
    ensures
        all_in_bounds(ray(g, color, x, y, dx, dy)),
    decreases span(x, dx) + span(y, dy),
{
    reveal(ray);
    let nx = x + dx;
    let ny = y + dy;
    if !((dx == 0 && dy == 0) || !on_board(nx, ny)) && cell(g, nx, ny) is None {
        lemma_ray_in_bounds(g, color, nx, ny, dx, dy);
        let r = ray(g, color, nx, ny, dx, dy);
        assert forall|i: int| 0 <= i < 1 + r.len() implies (#[trigger] (seq![pos(nx, ny)]
            + r)[i]).in_bounds() by {
            if i > 0 {
                assert((seq![pos(nx, ny)] + r)[i] == r[i - 1]);
            }
        }
    }
}

pub proof fn lemma_steps_in_bounds(
    g: Grid,
    color: PieceColor,
    x: int,
    y: int,
    offsets: Seq<(int, int)>,
)
    ensures
        all_in_bounds(steps(g, color, x, y, offsets)),
    decreases offsets.len(),
{
    if offsets.len() > 0 {
        lemma_steps_in_bounds(g, color, x, y, offsets.drop_last());
    }
}

/// Every destination a rule gives lies on the board.
pub proof fn lemma_destinations_in_bounds(kind: PieceType, g: Grid, color: PieceColor, x: int, y: int)
    requires
        on_board(x, y),
    ensures
        all_in_bounds(destinations(kind, g, color, x, y)),
{
    lemma_ray_in_bounds(g, color, x, y, 1, 0);
    lemma_ray_in_bounds(g, color, x, y, -1, 0);
    lemma_ray_in_bounds(g, color, x, y, 0, 1);
    lemma_ray_in_bounds(g, color, x, y, 0, -1);
    lemma_ray_in_bounds(g, color, x, y, 1, 1);
    lemma_ray_in_bounds(g, color, x, y, -1, 1);
    lemma_ray_in_bounds(g, color, x, y, -1, -1);
    lemma_ray_in_bounds(g, color, x, y, 1, -1);
    lemma_steps_in_bounds(g, color, x, y, king_offsets());
    lemma_steps_in_bounds(g, color, x, y, knight_offsets());
}

} // verus!
