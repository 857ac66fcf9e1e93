//! The universe: a fixed-size toroidal grid of cells in packed bit storage.

use crate::bitset::{bit, bits_of, blocks, copy_bits, new_cleared, set_bit, word_bit};
use crate::life::{
    alive_wrapped, cell_index, lemma_line_position, dead_grid, glider_points, glyph, line_point, line_points,
    nebra_points, neighbor_count, next_gen, next_state, placed, point_index, points_fit,
    render_text, spaceship_points, with_points, ALIVE_GLYPH, DEAD_GLYPH, HEIGHT, OFFSET, SIZE,
    WIDTH,
};
use fixedbitset::FixedBitSet;
use vstd::arithmetic::div_mod::lemma_fundamental_div_mod_converse;
use vstd::prelude::*;

verus! {

/// The state of one cell.
#[derive(Clone, Copy, Debug, PartialEq, Eq, Structural)]
pub enum Cell {
    Dead,
    Alive,
}

/// How a new universe starts: every cell drawn at random, or every cell dead.
#[derive(Clone, Copy, Debug, PartialEq, Eq, Structural)]
pub enum InitType {
    Random,
    Clear,
}

impl Default for InitType {
    fn default() -> (r: Self)
        ensures
            r == InitType::Random,
    {
        InitType::Random
    }
}

/// A `WIDTH` x `HEIGHT` toroidal grid, one bit per cell in row-major order.
pub struct Universe {
    width: u32,
    height: u32,
    cells: FixedBitSet,
}

impl View for Universe {
    type V = Seq<bool>;

    /// The grid, one entry per cell in row-major order.
    closed spec fn view(&self) -> Seq<bool> {
        bits_of(self.cells)
    }
}

impl Universe {
    /// The dimensions are the fixed ones and the storage holds one bit per cell.
    pub closed spec fn wf(&self) -> bool {
        &&& self.width == WIDTH
        &&& self.height == HEIGHT
        &&& bits_of(self.cells).len() == SIZE
    }

    /// A new universe. With `InitType::Random` each cell is alive where
    /// `coins` holds `true` at its index (the caller draws the coins, each
    /// alive with probability one half); with `InitType::Clear` every cell is
    /// dead and `coins` is not read.
    pub fn new(ty: InitType, coins: &Vec<bool>) -> (r: Universe)
        requires
            ty == InitType::Random ==> coins@.len() == SIZE,
        ensures
            r.wf(),
            ty == InitType::Random ==> r@ == coins@,
            ty == InitType::Clear ==> r@ == dead_grid(),
    {
        let width: u32 = WIDTH;
        let height: u32 = HEIGHT;

        let size: usize = (width * height) as usize;
        let mut cells = new_cleared(size);

        match ty {
            InitType::Random => Universe::init_random(&mut cells, coins),
            InitType::Clear => {},
        }

        Universe { width, height, cells }
    }

    /// Sets every bit of `cells` to the coin of the same index.
    fn init_random(cells: &mut FixedBitSet, coins: &Vec<bool>)
        requires
            coins@.len() == bits_of(*old(cells)).len(),
        ensures
            bits_of(*final(cells)) == coins@,
    {
        let size = coins.len();
        let mut i: usize = 0;
        while i < size
            invariant
                size == coins@.len(),
                bits_of(*cells).len() == size,
                i <= size,
                forall|j: int| 0 <= j < i ==> bits_of(*cells)[j] == coins@[j],
            decreases size - i,
        {
            set_bit(cells, i, coins[i]);
            i += 1;
        }
        assert(bits_of(*cells) =~= coins@);
    }

    /// Kills every cell, replacing the storage with a fresh all-dead one.
    pub fn clear(&mut self)
        requires
            old(self).wf(),
        ensures
            final(self).wf(),
            final(self)@ == dead_grid(),
    {
        let size: usize = (self.width * self.height) as usize;
        self.cells = new_cleared(size);
    }

    /// Replaces the whole grid with the drawn `coins`: cell `i` is alive
    /// exactly where `coins[i]` is `true`. Nothing of the old state is kept.
    pub fn put_random(&mut self, coins: &Vec<bool>)
        requires
            old(self).wf(),
            coins@.len() == SIZE,
        ensures
            final(self).wf(),
            final(self)@ == coins@,
    {
        let mut next = copy_bits(&self.cells);
        Universe::init_random(&mut next, coins);
        self.cells = next;
    }

    /// Linear index of the cell at `row`, `column`.
    fn get_index(&self, row: u32, column: u32) -> (r: usize)
        requires
            self.wf(),
            row < HEIGHT,
            column < WIDTH,
        ensures
            r == cell_index(row as int, column as int),
            r < SIZE,
    {
        (row * self.width + column) as usize
    }

    /// Makes alive the cell at column `x + OFFSET`, row `y + OFFSET` for each
    /// point `(x, y)`, on top of the current state: no live cell is cleared.
    fn put_points(&mut self, points: Vec<(u32, u32)>)
        requires
            old(self).wf(),
            points_fit(points@),
        ensures
            final(self).wf(),
            final(self)@ == with_points(old(self)@, points@),
    {
        let ghost g = self@;
        let offset_row: u32 = OFFSET;
        let offset_col: u32 = OFFSET;
        let mut next = copy_bits(&self.cells);
        assert(with_points(g, points@.take(0)) =~= g);
        let mut k: usize = 0;
        while k < points.len()
            invariant
                self.wf(),
                self@ == g,
                points_fit(points@),
                offset_row == OFFSET,
                offset_col == OFFSET,
                k <= points@.len(),
                bits_of(next) == with_points(g, points@.take(k as int)),
            decreases points@.len() - k,
        {
            let (x, y) = points[k];
            assert(x + OFFSET < WIDTH && y + OFFSET < HEIGHT) by {
                assert(points@[k as int] == (x, y));
            }
            let idx = self.get_index(y + offset_row, x + offset_col);
            set_bit(&mut next, idx, true);
            proof {
                let before = points@.take(k as int);
                let after = points@.take(k + 1);
                assert(after[k as int] == points@[k as int]);
                assert forall|i: int| 0 <= i < SIZE implies placed(after, i) == (placed(before, i)
                    || i == idx) by {
                    if placed(after, i) {
                        let j = choose|j: int| 0 <= j < after.len() && point_index(#[trigger] after[j]) == i;
                        if j < k {
                            assert(before[j] == after[j]);
                        }
                    }
                    if placed(before, i) {
                        let j = choose|j: int| 0 <= j < before.len() && point_index(#[trigger] before[j]) == i;
                        assert(before[j] == after[j]);
                    }
                    if i == idx {
                        assert(point_index(after[k as int]) == i);
                    }
                }
                assert(bits_of(next) =~= with_points(g, after));
            }
            k += 1;
        }
        assert(points@.take(points@.len() as int) =~= points@);
        self.cells = next;
    }

    /// Places a glider.
    pub fn put_glider(&mut self)
        requires
            old(self).wf(),
        ensures
            final(self).wf(),
            final(self)@ == with_points(old(self)@, glider_points()),
    {
        let points: Vec<(u32, u32)> = vec![(1, 0), (2, 1), (0, 2), (1, 2), (2, 2)];
        assert(points@ =~= glider_points());
        self.put_points(points);
    }

    /// Places a spaceship.
    pub fn put_spaceship(&mut self)
        requires
            old(self).wf(),
        ensures
            final(self).wf(),
            final(self)@ == with_points(old(self)@, spaceship_points()),
    {
        let points: Vec<(u32, u32)> = vec![
            (0, 0),
            (3, 0),
            (4, 1),
            (0, 2),
            (4, 2),
            (1, 3),
            (2, 3),
            (3, 3),
            (4, 3),
        ];
        assert(points@ =~= spaceship_points());
        self.put_points(points);
    }

    /// Places the line pattern: six repetitions of eight points along two
    /// edges and two cross lines.
    pub fn put_line(&mut self)
        requires
            old(self).wf(),
        ensures
            final(self).wf(),
            final(self)@ == with_points(old(self)@, line_points()),
    {
        let mut points: Vec<(u32, u32)> = Vec::new();
        let mut i: u32 = 0;
        while i < 6
            invariant
                i <= 6,
                points@ =~= line_points().take(8 * i),
            decreases 6 - i,
        {
            points.push((i, 0));
            points.push((i, 1));
            points.push((i + 3, 7));
            points.push((i + 3, 8));

            points.push((0, i + 3));
            points.push((1, i + 3));
            points.push((7, i));
            points.push((8, i));
            proof {
                assert forall|j: int| 0 <= j < 8 implies #[trigger] line_points()[8 * i + j]
                    == line_point(i, j) by {
                    lemma_fundamental_div_mod_converse(8 * i + j, 8, i as int, j);
                }
                assert(points@ =~= line_points().take(8 * (i + 1)));
            }
            i += 1;
        }
        assert(points@ =~= line_points());
        self.put_points(points);
    }

    /// Places six cells in a row.
    pub fn put_nebra(&mut self)
        requires
            old(self).wf(),
        ensures
            final(self).wf(),
            final(self)@ == with_points(old(self)@, nebra_points()),
    {
        let mut points: Vec<(u32, u32)> = Vec::new();
        let mut i: u32 = 0;
        while i < 6
            invariant
                i <= 6,
                points@ =~= nebra_points().take(i as int),
            decreases 6 - i,
        {
            points.push((i, 0));
            assert(points@ =~= nebra_points().take(i + 1));
            i += 1;
        }
        assert(points@ =~= nebra_points());
        self.put_points(points);
    }

    /// The grid as text: one line per row, top to bottom, each of one glyph
    /// per cell, left to right, and a line break after each row.
    pub fn render(&self) -> (r: String)
        requires
            self.wf(),
        ensures
            r@ == render_text(self@),
    {
        let ghost text = render_text(self@);
        let mut s = String::new();
        let mut row: u32 = 0;
        while row < self.height
            invariant
                self.wf(),
                text == render_text(self@),
                row <= HEIGHT,
                s@ =~= text.take(row * (WIDTH + 1)),
            decreases HEIGHT - row,
        {
            let mut col: u32 = 0;
            while col < self.width
                invariant
                    self.wf(),
                    text == render_text(self@),
                    row < HEIGHT,
                    col <= WIDTH,
                    s@ =~= text.take(row * (WIDTH + 1) + col),
                decreases WIDTH - col,
            {
                let idx = self.get_index(row, col);
                let symbol = if bit(&self.cells, idx) {
                    ALIVE_GLYPH
                } else {
                    DEAD_GLYPH
                };
                proof {
                    lemma_line_position(row as int, col as int);
                    assert(symbol == glyph(self@[idx as int]));
                    assert(text[row * (WIDTH + 1) + col] == symbol);
                }
                push_char(&mut s, symbol);
                assert(s@ =~= text.take(row * (WIDTH + 1) + col + 1));
                col += 1;
            }
            proof {
                lemma_line_position(row as int, WIDTH as int);
                assert((row + 1) * (WIDTH + 1) == row * (WIDTH + 1) + WIDTH + 1) by (nonlinear_arith);
            }
            assert(text[row * (WIDTH + 1) + WIDTH] == '\n');
            push_char(&mut s, '\n');
            assert(s@ =~= text.take((row + 1) * (WIDTH + 1)));
            row += 1;
        }
        s
    }

    /// Advances the universe one generation: every cell gets the state that
    /// the rule of life gives it from the current grid, the new grid being
    /// computed in full before it replaces the old one.
    pub fn tick(&mut self)
        requires
            old(self).wf(),
        ensures
            final(self).wf(),
            final(self)@ == next_gen(old(self)@),
    {
        let ghost g = self@;
        let mut next = copy_bits(&self.cells);

        let mut row: u32 = 0;
        while row < self.height
            invariant
                self.wf(),
                self@ == g,
                row <= HEIGHT,
                bits_of(next).len() == SIZE,
                forall|i: int| 0 <= i < row * WIDTH ==> bits_of(next)[i] == #[trigger] next_gen(g)[i],
                forall|i: int| row * WIDTH <= i < SIZE ==> bits_of(next)[i] == #[trigger] g[i],
            decreases HEIGHT - row,
        {
            let mut col: u32 = 0;
            while col < self.width
                invariant
                    self.wf(),
                    self@ == g,
                    row < HEIGHT,
                    col <= WIDTH,
                    bits_of(next).len() == SIZE,
                    forall|i: int|
                        0 <= i < row * WIDTH + col ==> bits_of(next)[i] == #[trigger] next_gen(g)[i],
                    forall|i: int| row * WIDTH + col <= i < SIZE ==> bits_of(next)[i] == #[trigger] g[i],
                decreases WIDTH - col,
            {
                let idx = self.get_index(row, col);
                let cell = bit(&self.cells, idx);
                let live_neighbors = self.live_neighbor_count(row, col);
                assert(idx as int / (WIDTH as int) == row && idx as int % (WIDTH as int) == col);

                let alive = if cell {
                    live_neighbors == 2 || live_neighbors == 3
                } else {
                    live_neighbors == 3
                };
                assert(alive == next_state(g[idx as int], live_neighbors as int));
                set_bit(&mut next, idx, alive);
                col += 1;
            }
            row += 1;
        }
        assert(bits_of(next) =~= next_gen(g));
        self.cells = next;
    }

    /// 1 if the cell `delta_row` rows and `delta_col` columns on from
    /// `row`, `column`, wrapping round the edges, is alive, else 0.
    fn alive_at_offset(&self, row: u32, column: u32, delta_row: u32, delta_col: u32) -> (r: u8)
        requires
            self.wf(),
            row < HEIGHT,
            column < WIDTH,
            delta_row < HEIGHT,
            delta_col < WIDTH,
        ensures
            r == alive_wrapped(self@, row + delta_row, column + delta_col),
    {
        let neighbor_row = (row + delta_row) % self.height;
        let neighbor_col = (column + delta_col) % self.width;
        let idx = self.get_index(neighbor_row, neighbor_col);
        if bit(&self.cells, idx) {
            1
        } else {
            0
        }
    }

    /// Number of live cells among the eight neighbours of `row`, `column` on
    /// the torus; an offset of `HEIGHT - 1` rows (or `WIDTH - 1` columns)
    /// is one step back.
    fn live_neighbor_count(&self, row: u32, column: u32) -> (r: u8)
        requires
            self.wf(),
            row < HEIGHT,
            column < WIDTH,
        ensures
            r == neighbor_count(self@, row as int, column as int),
    {
        let back_row = self.height - 1;
        let back_col = self.width - 1;
        proof {
            lemma_step_back(row as int, HEIGHT as int);
            lemma_step_back(column as int, WIDTH as int);
        }
        self.alive_at_offset(row, column, back_row, back_col) + self.alive_at_offset(
            row,
            column,
            back_row,
            0,
        ) + self.alive_at_offset(row, column, back_row, 1) + self.alive_at_offset(
            row,
            column,
            0,
            back_col,
        ) + self.alive_at_offset(row, column, 0, 1) + self.alive_at_offset(
            row,
            column,
            1,
            back_col,
        ) + self.alive_at_offset(row, column, 1, 0) + self.alive_at_offset(row, column, 1, 1)
    }

    /// Number of columns.
    pub fn width(&self) -> (r: u32)
        requires
            self.wf(),
        ensures
            r == WIDTH,
    {
        self.width
    }

    /// Number of rows.
    pub fn height(&self) -> (r: u32)
        requires
            self.wf(),
        ensures
            r == HEIGHT,
    {
        self.height
    }

    /// The packed storage of the grid, read-only: `SIZE / 32` blocks of 32
    /// bits, cell `i` in bit `i % 32` of block `i / 32`. Any mutation of the
    /// universe may replace the storage this borrows from.
    pub fn cells(&self) -> (r: &[u32])
        requires
            self.wf(),
        ensures
            r@.len() == SIZE / 32,
            forall|i: int| 0 <= i < SIZE ==> word_bit(r@, i) == #[trigger] self@[i],
    {
        blocks(&self.cells)
    }

    /// The state of the cell at `row`, `column`.
    pub fn cell(&self, row: u32, column: u32) -> (r: Cell)
        requires
            self.wf(),
            row < HEIGHT,
            column < WIDTH,
        ensures
            r == (if self@[cell_index(row as int, column as int)] {
                Cell::Alive
            } else {
                Cell::Dead
            }),
    {
        let idx = self.get_index(row, column);
        if bit(&self.cells, idx) {
            Cell::Alive
        } else {
            Cell::Dead
        }
    }
}

/// Relies on `String::push`: appends one character.
#[verifier::external_body]
fn push_char(s: &mut String, c: char)
    ensures
        final(s)@ == old(s)@.push(c),
{
    s.push(c)
}

/// Moving `n - 1` steps forward modulo `n` is moving one step back.
proof fn lemma_step_back(a: int, n: int)
    requires
        0 <= a < n,
    ensures
        (a + (n - 1)) % n == (a - 1) % n,
{
    if a == 0 {
        lemma_fundamental_div_mod_converse(n - 1, n, 0, n - 1);
        lemma_fundamental_div_mod_converse(-1, n, -1, n - 1);
    } else {
        lemma_fundamental_div_mod_converse(a + (n - 1), n, 1, a - 1);
        lemma_fundamental_div_mod_converse(a - 1, n, 0, a - 1);
    }
}

} // verus!
