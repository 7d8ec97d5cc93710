//! Properties of the move rules and of the board operations, proved over the
//! models in `rules` and the contracts in `board`.
use vstd::prelude::*;

use crate::board::Board;
use crate::piece::{PieceColor, PieceType, Position};
use crate::rules::{
    cell, destinations, forward, holds_color, home_rank, king_offsets, knight_offsets,
    on_board, opt_view, pawn_capture, pawn_moves, pawn_pushes, pos, ray, step, steps,
    Grid,
};

verus! {

/// The coordinates `k` steps from `(x, y)` in direction `(dx, dy)`.
pub open spec fn ahead(x: int, y: int, dx: int, dy: int, k: int) -> (int, int) {
    (x + k * dx, y + k * dy)
}

/// The cells 1 to `k - 1` steps ahead are on the board and empty.
pub open spec fn clear_before(g: Grid, x: int, y: int, dx: int, dy: int, k: int) -> bool {
    forall|j: int|
        1 <= j < k ==> on_board(#[trigger] ahead(x, y, dx, dy, j).0, ahead(x, y, dx, dy, j).1)
            && cell(g, ahead(x, y, dx, dy, j).0, ahead(x, y, dx, dy, j).1) is None
}

/// A sliding piece of `color` at `(x, y)` may stop `k` steps ahead: that
/// cell is on the board, every cell before it is empty, and it does not hold
/// a piece of the same color.
pub open spec fn slide_reaches(g: Grid, color: PieceColor, x: int, y: int, dx: int, dy: int, k: int) -> bool {
    let (a, b) = ahead(x, y, dx, dy, k);
    &&& k >= 1
    &&& on_board(a, b)
    &&& clear_before(g, x, y, dx, dy, k)
    &&& !holds_color(g, a, b, color)
}

/// The `i`-th cell of the ray is `i + 1` steps ahead, and the piece may stop there.
pub open spec fn ray_cell_reached(g: Grid, color: PieceColor, x: int, y: int, dx: int, dy: int, i: int) -> bool {
    let (a, b) = ahead(x, y, dx, dy, i + 1);
    &&& ray(g, color, x, y, dx, dy)[i] == pos(a, b)
    &&& slide_reaches(g, color, x, y, dx, dy, i + 1)
}

/// Each cell of the ray is one where the piece may stop, nearest first.
pub open spec fn ray_only_reached(g: Grid, color: PieceColor, x: int, y: int, dx: int, dy: int) -> bool {
    forall|i: int|
        0 <= i < ray(g, color, x, y, dx, dy).len() ==> #[trigger] ray_cell_reached(g, color, x, y, dx, dy, i)
}

/// Every distance at which the piece may stop is within the ray.
pub open spec fn ray_has_reached(g: Grid, color: PieceColor, x: int, y: int, dx: int, dy: int) -> bool {
    forall|k: int|
        #[trigger] slide_reaches(g, color, x, y, dx, dy, k) ==> k <= ray(g, color, x, y, dx, dy).len()
}

proof fn lemma_ahead_shift(x: int, y: int, dx: int, dy: int, j: int)
    ensures
        ahead(x + dx, y + dy, dx, dy, j) == ahead(x, y, dx, dy, j + 1),
        ahead(x, y, dx, dy, 1) == (x + dx, y + dy),
{
    assert((x + dx) + j * dx == x + (j + 1) * dx) by (nonlinear_arith);
    assert((y + dy) + j * dy == y + (j + 1) * dy) by (nonlinear_arith);
}

#[verifier::spinoff_prover]
proof fn lemma_ray_only_reached(g: Grid, color: PieceColor, x: int, y: int, dx: int, dy: int)
    requires
        on_board(x, y),
        dx != 0 || dy != 0,
    ensures
        ray_only_reached(g, color, x, y, dx, dy),
    decreases crate::rules::span(x, dx) + crate::rules::span(y, dy),
{
    reveal(ray);
    let nx = x + dx;
    let ny = y + dy;
    let r = ray(g, color, x, y, dx, dy);
    lemma_ahead_shift(x, y, dx, dy, 0);
    assert(clear_before(g, x, y, dx, dy, 1));
    if on_board(nx, ny) && cell(g, nx, ny) is None {
        lemma_ray_only_reached(g, color, nx, ny, dx, dy);
        let rest = ray(g, color, nx, ny, dx, dy);
        assert(r == seq![pos(nx, ny)] + rest);
        assert forall|i: int| 0 <= i < r.len() implies #[trigger] ray_cell_reached(
            g,
            color,
            x,
            y,
            dx,
            dy,
            i,
        ) by {
            if i > 0 {
                assert(ray_cell_reached(g, color, nx, ny, dx, dy, i - 1));
                assert(r[i] == rest[i - 1]);
                lemma_ahead_shift(x, y, dx, dy, i);
                assert forall|j: int| 1 <= j < i + 1 implies on_board(
                    #[trigger] ahead(x, y, dx, dy, j).0,
                    ahead(x, y, dx, dy, j).1,
                ) && cell(g, ahead(x, y, dx, dy, j).0, ahead(x, y, dx, dy, j).1) is None by {
                    if j > 1 {
                        lemma_ahead_shift(x, y, dx, dy, j - 1);
                    }
                }
            }
        }
    } else if on_board(nx, ny) && cell(g, nx, ny)->0.piece_color != color {
        assert(r == seq![pos(nx, ny)]);
        assert(ray_cell_reached(g, color, x, y, dx, dy, 0));
    } else {
        assert(r.len() == 0);
    }
}

#[verifier::spinoff_prover]
proof fn lemma_ray_has_reached(g: Grid, color: PieceColor, x: int, y: int, dx: int, dy: int)
    requires
        on_board(x, y),
        dx != 0 || dy != 0,
    ensures
        ray_has_reached(g, color, x, y, dx, dy),
    decreases crate::rules::span(x, dx) + crate::rules::span(y, dy),
{
    reveal(ray);
    let nx = x + dx;
    let ny = y + dy;
    let r = ray(g, color, x, y, dx, dy);
    lemma_ahead_shift(x, y, dx, dy, 0);
    if !on_board(nx, ny) {
        assert forall|k: int| #[trigger] slide_reaches(g, color, x, y, dx, dy, k) implies k <= r.len() by {
            if k > 1 {
                assert(on_board(ahead(x, y, dx, dy, 1).0, ahead(x, y, dx, dy, 1).1));
            }
        }
    } else if cell(g, nx, ny) is Some {
        assert forall|k: int| #[trigger] slide_reaches(g, color, x, y, dx, dy, k) implies k <= r.len() by {
            if k > 1 {
                assert(cell(g, ahead(x, y, dx, dy, 1).0, ahead(x, y, dx, dy, 1).1) is None);
            }
        }
    } else {
        lemma_ray_has_reached(g, color, nx, ny, dx, dy);
        let rest = ray(g, color, nx, ny, dx, dy);
        assert(r == seq![pos(nx, ny)] + rest);
        assert forall|k: int| #[trigger] slide_reaches(g, color, x, y, dx, dy, k) implies k <= r.len() by {
            if k > 1 {
                lemma_ahead_shift(x, y, dx, dy, k - 1);
                assert forall|j: int| 1 <= j < k - 1 implies on_board(
                    #[trigger] ahead(nx, ny, dx, dy, j).0,
                    ahead(nx, ny, dx, dy, j).1,
                ) && cell(g, ahead(nx, ny, dx, dy, j).0, ahead(nx, ny, dx, dy, j).1) is None by {
                    lemma_ahead_shift(x, y, dx, dy, j);
                }
                assert(slide_reaches(g, color, nx, ny, dx, dy, k - 1));
            }
        }
    }
}

/// The ray in direction `(dx, dy)` is exactly the cells a sliding piece may
/// stop on, nearest first: its `i`-th cell is `i + 1` steps ahead, every
/// cell before it is empty, and it holds no piece of the mover's color; and
/// each such cell is in the ray. So the ray holds every empty cell up to the
/// first occupied one, that one too if it holds an opposing piece, and
/// nothing beyond it.
pub proof fn lemma_ray_exact(g: Grid, color: PieceColor, x: int, y: int, dx: int, dy: int)
    requires
        on_board(x, y),
        dx != 0 || dy != 0,
    ensures
        ray_only_reached(g, color, x, y, dx, dy),
        ray_has_reached(g, color, x, y, dx, dy),
{
    lemma_ray_only_reached(g, color, x, y, dx, dy);
    lemma_ray_has_reached(g, color, x, y, dx, dy);
}

/// A step piece of `color` at `(x, y)` may land on the cell offset by `o`:
/// it is on the board and holds no piece of the same color.
pub open spec fn step_reaches(g: Grid, color: PieceColor, x: int, y: int, o: (int, int)) -> bool {
    on_board(x + o.0, y + o.1) && !holds_color(g, x + o.0, y + o.1, color)
}

/// The `i`-th move is the landing cell of some offset.
pub open spec fn step_cell_reached(
    g: Grid,
    color: PieceColor,
    x: int,
    y: int,
    offsets: Seq<(int, int)>,
    i: int,
) -> bool {
    exists|j: int|
        0 <= j < offsets.len() && steps(g, color, x, y, offsets)[i] == pos(
            x + offsets[j].0,
            y + offsets[j].1,
        ) && #[trigger] step_reaches(g, color, x, y, offsets[j])
}

/// The moves of a step piece are exactly the landing cells of its offsets
/// that are on the board and hold no piece of its own color: each move is
/// such a cell, and each such cell is a move. In particular a cell holding an
/// opposing piece at one of its offsets is always a move.
pub proof fn lemma_steps_exact(g: Grid, color: PieceColor, x: int, y: int, offsets: Seq<(int, int)>)
    ensures
        forall|i: int|
            0 <= i < steps(g, color, x, y, offsets).len() ==> #[trigger] step_cell_reached(
                g,
                color,
                x,
                y,
                offsets,
                i,
            ),
        forall|j: int|
            0 <= j < offsets.len() && #[trigger] step_reaches(g, color, x, y, offsets[j]) ==> steps(
                g,
                color,
                x,
                y,
                offsets,
            ).contains(pos(x + offsets[j].0, y + offsets[j].1)),
    decreases offsets.len(),
{
    if offsets.len() > 0 {
        let init = offsets.drop_last();
        let o = offsets.last();
        lemma_steps_exact(g, color, x, y, init);
        let s0 = steps(g, color, x, y, init);
        let s1 = step(g, color, x, y, o);
        let s = steps(g, color, x, y, offsets);
        assert(s == s0 + s1);
        assert forall|i: int| 0 <= i < s.len() implies #[trigger] step_cell_reached(
            g,
            color,
            x,
            y,
            offsets,
            i,
        ) by {
            if i < s0.len() {
                assert(step_cell_reached(g, color, x, y, init, i));
                let j = choose|j: int|
                    0 <= j < init.len() && s0[i] == pos(x + init[j].0, y + init[j].1)
                        && #[trigger] step_reaches(g, color, x, y, init[j]);
                assert(offsets[j] == init[j]);
                assert(s[i] == s0[i]);
            } else {
                assert(s[i] == s1[i - s0.len()]);
                assert(offsets[offsets.len() - 1] == o);
                assert(step_reaches(g, color, x, y, offsets[offsets.len() - 1]));
            }
        }
        assert forall|j: int|
            0 <= j < offsets.len() && #[trigger] step_reaches(g, color, x, y, offsets[j]) implies s.contains(
            pos(x + offsets[j].0, y + offsets[j].1),
        ) by {
            if j < init.len() {
                assert(offsets[j] == init[j]);
                assert(step_reaches(g, color, x, y, init[j]));
                let k = choose|k: int| 0 <= k < s0.len() && s0[k] == pos(x + init[j].0, y + init[j].1);
                assert(s[k] == s0[k]);
            } else {
                assert(s[s0.len() as int] == s1[0]);
            }
        }
    }
}

/// No rule lets a piece move onto a cell held by a piece of its own color.
pub proof fn lemma_never_onto_own_piece(kind: PieceType, g: Grid, color: PieceColor, x: int, y: int)
    requires
        on_board(x, y),
    ensures
        avoids_color(g, destinations(kind, g, color, x, y), color),
{
    let d = destinations(kind, g, color, x, y);
    match kind {
        PieceType::King | PieceType::Knight => {
            let offsets = if kind == PieceType::King {
                king_offsets()
            } else {
                knight_offsets()
            };
            lemma_steps_exact(g, color, x, y, offsets);
            assert forall|i: int| 0 <= i < d.len() implies !holds_color(
                g,
                #[trigger] d[i].x as int,
                d[i].y as int,
                color,
            ) by {
                assert(step_cell_reached(g, color, x, y, offsets, i));
            }
        },
        PieceType::Pawn => {
            crate::rules::lemma_destinations_in_bounds(kind, g, color, x, y);
        },
        _ => {
            lemma_ray_no_own_piece(g, color, x, y, 1, 0);
            lemma_ray_no_own_piece(g, color, x, y, -1, 0);
            lemma_ray_no_own_piece(g, color, x, y, 0, 1);
            lemma_ray_no_own_piece(g, color, x, y, 0, -1);
            lemma_ray_no_own_piece(g, color, x, y, 1, 1);
            lemma_ray_no_own_piece(g, color, x, y, -1, 1);
            lemma_ray_no_own_piece(g, color, x, y, -1, -1);
            lemma_ray_no_own_piece(g, color, x, y, 1, -1);
        },
    }
}

/// A sliding piece may always capture the first piece along a ray when it is
/// an opposing one: if every cell before it is empty, its cell is a move.
pub proof fn lemma_slide_captures(
    g: Grid,
    color: PieceColor,
    x: int,
    y: int,
    dx: int,
    dy: int,
    k: int,
)
    requires
        on_board(x, y),
        dx != 0 || dy != 0,
        k >= 1,
        on_board(ahead(x, y, dx, dy, k).0, ahead(x, y, dx, dy, k).1),
        clear_before(g, x, y, dx, dy, k),
        holds_color(g, ahead(x, y, dx, dy, k).0, ahead(x, y, dx, dy, k).1, color.opponent()),
    ensures
        ray(g, color, x, y, dx, dy).contains(
            pos(ahead(x, y, dx, dy, k).0, ahead(x, y, dx, dy, k).1),
        ),
{
    lemma_ray_exact(g, color, x, y, dx, dy);
    assert(slide_reaches(g, color, x, y, dx, dy, k));
    assert(ray_cell_reached(g, color, x, y, dx, dy, k - 1));
}

/// The pawn of `color` at `(x, y)` may move to `p`: one cell forward onto an
/// empty cell; two cells forward from its home rank when both cells are
/// empty; or one cell diagonally forward onto an opposing piece.
pub open spec fn pawn_may_reach(g: Grid, color: PieceColor, x: int, y: int, p: Position) -> bool {
    let f = forward(color);
    let px = p.x as int;
    let py = p.y as int;
    &&& p.in_bounds()
    &&& {
        ||| (px == x + f && py == y && cell(g, px, py) is None)
        ||| (px == x + 2 * f && py == y && x == home_rank(color) && cell(g, x + f, y) is None && cell(
            g,
            px,
            py,
        ) is None)
        ||| (px == x + f && (py == y - 1 || py == y + 1) && holds_color(g, px, py, color.opponent()))
    }
}

/// A pawn's moves are exactly the cells its rule allows: a single step onto
/// an empty cell, a double step only from the home rank over two empty
/// cells, and a diagonal step only onto an opposing piece.
pub proof fn lemma_pawn_exact(g: Grid, color: PieceColor, x: int, y: int)
    requires
        on_board(x, y),
    ensures
        forall|p: Position| #[trigger] pawn_moves(g, color, x, y).contains(p) <==> pawn_may_reach(g, color, x, y, p),
{
    let f = forward(color);
    let nx = x + f;
    let m = pawn_moves(g, color, x, y);
    assert forall|p: Position| #[trigger] m.contains(p) <==> pawn_may_reach(g, color, x, y, p) by {
        if on_board(nx, y) {
            let a = pawn_pushes(g, color, x, y);
            let b = pawn_capture(g, color, nx, y - 1);
            let c = pawn_capture(g, color, nx, y + 1);
            assert(m == a + b + c);
            if m.contains(p) {
                let i = choose|i: int| 0 <= i < m.len() && m[i] == p;
                if i < a.len() {
                    assert(a[i] == p);
                } else if i < a.len() + b.len() {
                    assert(b[i - a.len()] == p);
                } else {
                    assert(c[i - a.len() - b.len()] == p);
                }
            }
            if pawn_may_reach(g, color, x, y, p) {
                if p.x as int == nx && p.y as int == y {
                    assert(a[0] == p);
                    assert(m[0] == p);
                } else if p.x as int == x + 2 * f {
                    assert(a[1] == p);
                    assert(m[1] == p);
                } else if p.y as int == y - 1 {
                    assert(b[0] == p);
                    assert(m[a.len() as int] == p);
                } else {
                    assert(c[0] == p);
                    assert(m[(a.len() + b.len()) as int] == p);
                }
            }
        }
    }
}

/// No cell of `s` holds a piece of `color`.
pub open spec fn avoids_color(g: Grid, s: Seq<Position>, color: PieceColor) -> bool {
    forall|i: int|
        0 <= i < s.len() ==> !holds_color(g, #[trigger] s[i].x as int, s[i].y as int, color)
}

proof fn lemma_ray_no_own_piece(g: Grid, color: PieceColor, x: int, y: int, dx: int, dy: int)
    requires
        on_board(x, y),
        dx != 0 || dy != 0,
    ensures
        avoids_color(g, ray(g, color, x, y, dx, dy), color),
{
    lemma_ray_only_reached(g, color, x, y, dx, dy);
    let r = ray(g, color, x, y, dx, dy);
    assert forall|i: int| 0 <= i < r.len() implies !holds_color(
        g,
        #[trigger] r[i].x as int,
        r[i].y as int,
        color,
    ) by {
        assert(ray_cell_reached(g, color, x, y, dx, dy, i));
    }
}

/// Selecting the same cell twice, with nothing changed in between, leaves
/// the same selection and the same cached moves as selecting it once.
pub proof fn lemma_select_idempotent(b0: Board, b1: Board, b2: Board, p: Position)
    requires
        b0.selects(p, b1),
        b1.selects(p, b2),
    ensures
        b2.selected_position == b1.selected_position,
        opt_view(b2.currently_legal_moves) == opt_view(b1.currently_legal_moves),
{
}

} // verus!
