//! The mathematical model of the game: a grid is a `Seq<bool>` of
//! `WIDTH * HEIGHT` cells in row-major order (`true` is alive), and the
//! operations of the universe are stated as functions on such grids.

use vstd::arithmetic::div_mod::lemma_fundamental_div_mod_converse;
use vstd::prelude::*;

verus! {

/// Number of columns of the grid.
pub const WIDTH: u32 = 64;

/// Number of rows of the grid.
pub const HEIGHT: u32 = 64;

/// Number of cells of the grid.
pub const SIZE: usize = 4096;

/// Row and column offset at which `put_points` places a pattern.
pub const OFFSET: u32 = 5;

/// Glyph of a live cell in the text rendering.
pub const ALIVE_GLYPH: char = '◻';

/// Glyph of a dead cell in the text rendering.
pub const DEAD_GLYPH: char = '◼';

/// Linear index of the cell at `row`, `col`.
pub open spec fn cell_index(row: int, col: int) -> int {
    row * WIDTH + col
}

/// A grid of the universe's size.
pub open spec fn is_grid(g: Seq<bool>) -> bool {
    g.len() == SIZE
}

/// The grid with every cell dead.
pub open spec fn dead_grid() -> Seq<bool> {
    Seq::new(SIZE as nat, |i: int| false)
}

/// 1 if the cell at `row`, `col`, taken modulo the grid's dimensions, is
/// alive, else 0.
pub open spec fn alive_wrapped(g: Seq<bool>, row: int, col: int) -> int {
    if g[cell_index(row % (HEIGHT as int), col % (WIDTH as int))] {
        1
    } else {
        0
    }
}

/// Number of live cells among the eight toroidal neighbours of `row`, `col`.
pub open spec fn neighbor_count(g: Seq<bool>, row: int, col: int) -> int {
    alive_wrapped(g, row - 1, col - 1) + alive_wrapped(g, row - 1, col) + alive_wrapped(
        g,
        row - 1,
        col + 1,
    ) + alive_wrapped(g, row, col - 1) + alive_wrapped(g, row, col + 1) + alive_wrapped(
        g,
        row + 1,
        col - 1,
    ) + alive_wrapped(g, row + 1, col) + alive_wrapped(g, row + 1, col + 1)
}

/// The rule of life: a live cell survives with two or three live
/// neighbours, a dead cell comes alive with exactly three.
pub open spec fn next_state(alive: bool, neighbors: int) -> bool {
    if alive {
        neighbors == 2 || neighbors == 3
    } else {
        neighbors == 3
    }
}

/// The next generation of a grid, every cell computed from `g` alone.
pub open spec fn next_gen(g: Seq<bool>) -> Seq<bool> {
    Seq::new(
        g.len(),
        |i: int| next_state(g[i], neighbor_count(g, i / (WIDTH as int), i % (WIDTH as int))),
    )
}

/// Linear index of the cell that `put_points` sets for the point `(x, y)`:
/// column `x + OFFSET`, row `y + OFFSET`.
pub open spec fn point_index(p: (u32, u32)) -> int {
    cell_index(p.1 + OFFSET, p.0 + OFFSET)
}

/// Every point lands inside the grid once offset.
pub open spec fn points_fit(points: Seq<(u32, u32)>) -> bool {
    forall|k: int|
        0 <= k < points.len() ==> #[trigger] points[k].0 + OFFSET < WIDTH && points[k].1 + OFFSET
            < HEIGHT
}

/// Whether some point of `points` sets cell `i`.
pub open spec fn placed(points: Seq<(u32, u32)>, i: int) -> bool {
    exists|k: int| 0 <= k < points.len() && point_index(#[trigger] points[k]) == i
}

/// The grid `g` with the cells of `points` made alive and the others kept.
pub open spec fn with_points(g: Seq<bool>, points: Seq<(u32, u32)>) -> Seq<bool> {
    Seq::new(g.len(), |i: int| g[i] || placed(points, i))
}

/// The glider, a five-cell pattern that moves one cell diagonally every
/// four generations.
pub open spec fn glider_points() -> Seq<(u32, u32)> {
    seq![(1, 0), (2, 1), (0, 2), (1, 2), (2, 2)]
}

/// A nine-cell spaceship.
pub open spec fn spaceship_points() -> Seq<(u32, u32)> {
    seq![(0, 0), (3, 0), (4, 1), (0, 2), (4, 2), (1, 3), (2, 3), (3, 3), (4, 3)]
}

/// Point `j` (of eight) of repetition `i` of the line pattern.
pub open spec fn line_point(i: u32, j: int) -> (u32, u32) {
    if j == 0 {
        (i, 0)
    } else if j == 1 {
        (i, 1)
    } else if j == 2 {
        ((i + 3) as u32, 7)
    } else if j == 3 {
        ((i + 3) as u32, 8)
    } else if j == 4 {
        (0, (i + 3) as u32)
    } else if j == 5 {
        (1, (i + 3) as u32)
    } else if j == 6 {
        (7, i)
    } else {
        (8, i)
    }
}

/// The line pattern: six repetitions of eight points along two edges and
/// two cross lines, 48 points in all.
pub open spec fn line_points() -> Seq<(u32, u32)> {
    Seq::new(48, |k: int| line_point((k / 8) as u32, k % 8))
}

/// Six cells in a row along the top of the pattern area.
pub open spec fn nebra_points() -> Seq<(u32, u32)> {
    Seq::new(6, |k: int| (k as u32, 0u32))
}

/// The glyph that renders a cell.
pub open spec fn glyph(alive: bool) -> char {
    if alive {
        ALIVE_GLYPH
    } else {
        DEAD_GLYPH
    }
}

/// The text rendering of a grid: `HEIGHT` lines, top to bottom, each of
/// `WIDTH` glyphs, left to right, followed by a line break.
pub open spec fn render_text(g: Seq<bool>) -> Seq<char> {
    Seq::new(
        (HEIGHT * (WIDTH + 1)) as nat,
        |k: int|
            if k % (WIDTH + 1) == WIDTH {
                '\n'
            } else {
                glyph(g[cell_index(k / (WIDTH + 1), k % (WIDTH + 1))])
            },
    )
}

/// Column `col` of line `row` of a rendering is at `row * (WIDTH + 1) + col`.
pub proof fn lemma_line_position(row: int, col: int)
    requires
        0 <= row < HEIGHT,
        0 <= col <= WIDTH,
    ensures
        0 <= row * (WIDTH + 1) + col < HEIGHT * (WIDTH + 1),
        (row * (WIDTH + 1) + col) / (WIDTH + 1) == row,
        (row * (WIDTH + 1) + col) % (WIDTH + 1) == col,
{
    assert(0 <= row * (WIDTH + 1) + col < HEIGHT * (WIDTH + 1)) by (nonlinear_arith)
        requires
            0 <= row < HEIGHT,
            0 <= col <= WIDTH,
            HEIGHT == 64,
            WIDTH == 64,
    ;
    lemma_fundamental_div_mod_converse(row * (WIDTH + 1) + col, WIDTH + 1, row, col);
}

} // verus!
