//! Properties of the game, proved over the model in `life`.

use crate::life::{
    cell_index, dead_grid, glider_points, glyph, is_grid, lemma_line_position, nebra_points,
    neighbor_count, next_gen, placed, point_index, render_text, with_points, ALIVE_GLYPH,
    DEAD_GLYPH, HEIGHT, SIZE, WIDTH,
};
use crate::universe::Universe;
use vstd::arithmetic::div_mod::lemma_fundamental_div_mod_converse;
use vstd::prelude::*;

verus! {

/// A tick is a function of the grid alone: two universes holding the same
/// grid tick to the same grid.
pub proof fn lemma_tick_deterministic(a: Universe, b: Universe)
    requires
        a.wf(),
        b.wf(),
        a@ == b@,
    ensures
        next_gen(a@) == next_gen(b@),
{
}

/// Clearing twice gives the same grid as clearing once: `clear` leaves the
/// all-dead grid whatever grid `g` came before, a grid of the same size
/// with no live cell, so clearing that again leaves it as it is.
pub proof fn lemma_clear_idempotent(g: Seq<bool>)
    requires
        is_grid(g),
    ensures
        dead_grid().len() == g.len(),
        forall|i: int| 0 <= i < g.len() ==> !#[trigger] dead_grid()[i],
{
}

/// Neighbours wrap round the torus: the cell in the last row and last
/// column is a neighbour of the cell at row 0, column 0, so making it alive
/// raises that cell's count by exactly one.
pub proof fn lemma_corner_wraps(g: Seq<bool>)
    requires
        is_grid(g),
    ensures
        neighbor_count(g.update(SIZE - 1, true), 0, 0) == neighbor_count(
            g.update(SIZE - 1, false),
            0,
            0,
        ) + 1,
{
    lemma_fundamental_div_mod_converse(-1, HEIGHT as int, -1, HEIGHT - 1);
    lemma_fundamental_div_mod_converse(0, HEIGHT as int, 0, 0);
    lemma_fundamental_div_mod_converse(1, HEIGHT as int, 0, 1);
}

/// The index of the cell at `row`, `col` gives back its row and column.
proof fn lemma_index_parts(row: int, col: int)
    requires
        0 <= row < HEIGHT,
        0 <= col < WIDTH,
    ensures
        0 <= cell_index(row, col) < SIZE,
        cell_index(row, col) / (WIDTH as int) == row,
        cell_index(row, col) % (WIDTH as int) == col,
{
    lemma_fundamental_div_mod_converse(cell_index(row, col), WIDTH as int, row, col);
}

/// Underpopulation: a live cell with no live neighbour is dead after a tick.
pub proof fn lemma_underpopulation(g: Seq<bool>, row: int, col: int)
    requires
        is_grid(g),
        0 <= row < HEIGHT,
        0 <= col < WIDTH,
        g[cell_index(row, col)],
        neighbor_count(g, row, col) == 0,
    ensures
        !next_gen(g)[cell_index(row, col)],
{
    lemma_index_parts(row, col);
}

/// Reproduction: a dead cell with exactly three live neighbours is alive
/// after a tick.
pub proof fn lemma_reproduction(g: Seq<bool>, row: int, col: int)
    requires
        is_grid(g),
        0 <= row < HEIGHT,
        0 <= col < WIDTH,
        !g[cell_index(row, col)],
        neighbor_count(g, row, col) == 3,
    ensures
        next_gen(g)[cell_index(row, col)],
{
    lemma_index_parts(row, col);
}

/// Placing patterns is additive: after a glider and then the row of six,
/// every cell that was alive still is, and the cells of both patterns are
/// alive.
pub proof fn lemma_patterns_add_up(g: Seq<bool>)
    requires
        is_grid(g),
    ensures
        is_grid(with_points(with_points(g, glider_points()), nebra_points())),
        forall|i: int|
            0 <= i < SIZE && g[i] ==> #[trigger] with_points(
                with_points(g, glider_points()),
                nebra_points(),
            )[i],
        forall|k: int|
            0 <= k < glider_points().len() ==> with_points(
                with_points(g, glider_points()),
                nebra_points(),
            )[point_index(#[trigger] glider_points()[k])],
        forall|k: int|
            0 <= k < nebra_points().len() ==> with_points(
                with_points(g, glider_points()),
                nebra_points(),
            )[point_index(#[trigger] nebra_points()[k])],
{
    let glider = glider_points();
    let nebra = nebra_points();
    assert forall|k: int| 0 <= k < glider.len() implies with_points(
        with_points(g, glider),
        nebra,
    )[point_index(#[trigger] glider[k])] by {
        assert(0 <= point_index(glider[k]) < SIZE);
        assert(placed(glider, point_index(glider[k])));
    }
    assert forall|k: int| 0 <= k < nebra.len() implies with_points(
        with_points(g, glider),
        nebra,
    )[point_index(#[trigger] nebra[k])] by {
        assert(0 <= point_index(nebra[k]) < SIZE);
        assert(placed(nebra, point_index(nebra[k])));
    }
}

/// The rendering has `HEIGHT` lines of `WIDTH` glyphs each: the character
/// at column `col` of line `row` is a line break exactly when `col` is
/// `WIDTH`, and a cell's glyph before that.
pub proof fn lemma_render_lines(g: Seq<bool>)
    requires
        is_grid(g),
    ensures
        render_text(g).len() == HEIGHT * (WIDTH + 1),
        forall|row: int, col: int|
            0 <= row < HEIGHT && 0 <= col < WIDTH ==> #[trigger] render_text(g)[row * (WIDTH + 1)
                + col] == glyph(g[cell_index(row, col)]),
        forall|row: int|
            0 <= row < HEIGHT ==> #[trigger] render_text(g)[row * (WIDTH + 1) + WIDTH] == '\n',
        ALIVE_GLYPH != '\n' && DEAD_GLYPH != '\n',
{
    assert forall|row: int, col: int|
        0 <= row < HEIGHT && 0 <= col < WIDTH implies #[trigger] render_text(g)[row * (WIDTH + 1)
        + col] == glyph(g[cell_index(row, col)]) by {
        lemma_line_position(row, col);
    }
    assert forall|row: int| 0 <= row < HEIGHT implies #[trigger] render_text(g)[row * (WIDTH + 1)
        + WIDTH] == '\n' by {
        lemma_line_position(row, WIDTH as int);
    }
}

} // verus!
