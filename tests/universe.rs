use wasm_game_of_life::{Cell, InitType, Universe};

const SIDE: u32 = 64;

fn grid_with(alive: &[(u32, u32)]) -> Vec<bool> {
    let mut coins = vec![false; (SIDE * SIDE) as usize];
    for &(row, col) in alive {
        coins[(row * SIDE + col) as usize] = true;
    }
    coins
}

fn universe_with(alive: &[(u32, u32)]) -> Universe {
    Universe::new(InitType::Random, &grid_with(alive))
}

fn live_cells(u: &Universe) -> Vec<(u32, u32)> {
    let mut out = Vec::new();
    for row in 0..u.height() {
        for col in 0..u.width() {
            if u.cell(row, col) == Cell::Alive {
                out.push((row, col));
            }
        }
    }
    out
}

fn pseudo_random_coins(seed: u64) -> Vec<bool> {
    let mut state = seed;
    (0..SIDE * SIDE)
        .map(|_| {
            state = state.wrapping_mul(6364136223846793005).wrapping_add(1442695040888963407);
            (state >> 33) & 1 == 1
        })
        .collect()
}

#[test]
fn dimensions_are_fixed() {
    let u = Universe::new(InitType::Clear, &Vec::new());
    assert_eq!(u.width(), 64);
    assert_eq!(u.height(), 64);
}

#[test]
fn default_init_is_random() {
    assert_eq!(InitType::default(), InitType::Random);
}

#[test]
fn new_clear_is_all_dead() {
    let u = Universe::new(InitType::Clear, &Vec::new());
    assert!(live_cells(&u).is_empty());
}

#[test]
fn new_random_takes_the_coins() {
    let coins = pseudo_random_coins(7);
    let u = Universe::new(InitType::Random, &coins);
    for row in 0..64u32 {
        for col in 0..64u32 {
            let expected = if coins[(row * 64 + col) as usize] { Cell::Alive } else { Cell::Dead };
            assert_eq!(u.cell(row, col), expected);
        }
    }
}

#[test]
fn put_random_replaces_the_grid() {
    let mut u = universe_with(&[(0, 0), (1, 1)]);
    let coins = grid_with(&[(2, 3)]);
    u.put_random(&coins);
    assert_eq!(live_cells(&u), vec![(2, 3)]);
}

#[test]
fn tick_is_deterministic() {
    let coins = pseudo_random_coins(42);
    let mut a = Universe::new(InitType::Random, &coins);
    let mut b = Universe::new(InitType::Random, &coins);
    a.tick();
    b.tick();
    assert_eq!(a.render(), b.render());
    assert_eq!(a.cells(), b.cells());
}

#[test]
fn clear_twice_is_clear_once() {
    let mut once = Universe::new(InitType::Random, &pseudo_random_coins(3));
    once.clear();
    let mut twice = Universe::new(InitType::Random, &pseudo_random_coins(3));
    twice.clear();
    twice.clear();
    assert_eq!(once.render(), twice.render());
    assert!(live_cells(&twice).is_empty());
}

#[test]
fn neighbours_wrap_round_the_corners() {
    // The dead corner (0, 0) has its three live neighbours across both edges.
    let mut u = universe_with(&[(63, 63), (63, 0), (0, 63)]);
    u.tick();
    assert_eq!(u.cell(0, 0), Cell::Alive);
}

#[test]
fn lonely_cell_dies() {
    let mut u = universe_with(&[(20, 20)]);
    u.tick();
    assert_eq!(u.cell(20, 20), Cell::Dead);
    assert!(live_cells(&u).is_empty());
}

#[test]
fn dead_cell_with_three_neighbours_is_born() {
    let mut u = universe_with(&[(10, 10), (10, 11), (11, 10)]);
    assert_eq!(u.cell(11, 11), Cell::Dead);
    u.tick();
    assert_eq!(u.cell(11, 11), Cell::Alive);
    assert_eq!(live_cells(&u), vec![(10, 10), (10, 11), (11, 10), (11, 11)]);
}

#[test]
fn overcrowded_cell_dies() {
    // The centre has four live neighbours.
    let mut u = universe_with(&[(30, 30), (29, 29), (29, 31), (31, 29), (31, 31)]);
    u.tick();
    assert_eq!(u.cell(30, 30), Cell::Dead);
}

#[test]
fn blinker_oscillates() {
    let mut u = universe_with(&[(30, 29), (30, 30), (30, 31)]);
    u.tick();
    assert_eq!(live_cells(&u), vec![(29, 30), (30, 30), (31, 30)]);
    u.tick();
    assert_eq!(live_cells(&u), vec![(30, 29), (30, 30), (30, 31)]);
}

#[test]
fn glider_moves_one_cell_diagonally_in_four_ticks() {
    let mut u = Universe::new(InitType::Clear, &Vec::new());
    u.put_glider();
    // (row, col) = (y + 5, x + 5) for the glider's points.
    let start = vec![(5, 6), (6, 7), (7, 5), (7, 6), (7, 7)];
    assert_eq!(live_cells(&u), start);
    for _ in 0..4 {
        u.tick();
    }
    let moved: Vec<(u32, u32)> = start.iter().map(|&(r, c)| (r + 1, c + 1)).collect();
    assert_eq!(live_cells(&u), moved);
}

#[test]
fn glider_and_nebra_add_up() {
    let mut u = Universe::new(InitType::Clear, &Vec::new());
    u.put_glider();
    u.put_nebra();
    let mut expected = vec![(5, 6), (6, 7), (7, 5), (7, 6), (7, 7)];
    for col in 5..11 {
        expected.push((5, col));
    }
    expected.sort();
    expected.dedup();
    assert_eq!(live_cells(&u), expected);
}

#[test]
fn patterns_keep_live_cells() {
    let mut u = universe_with(&[(40, 40)]);
    u.put_spaceship();
    assert_eq!(u.cell(40, 40), Cell::Alive);
}

#[test]
fn spaceship_cells() {
    let mut u = Universe::new(InitType::Clear, &Vec::new());
    u.put_spaceship();
    assert_eq!(
        live_cells(&u),
        vec![(5, 5), (5, 8), (6, 9), (7, 5), (7, 9), (8, 6), (8, 7), (8, 8), (8, 9)]
    );
}

#[test]
fn line_pattern_has_48_cells() {
    let mut u = Universe::new(InitType::Clear, &Vec::new());
    u.put_line();
    let live = live_cells(&u);
    assert_eq!(live.len(), 48);
    assert!(live.contains(&(5, 5)));
    assert!(live.contains(&(13, 13)));
    assert!(live.contains(&(10, 13)));
    assert!(live.contains(&(13, 6)));
}

#[test]
fn nebra_is_a_row_of_six() {
    let mut u = Universe::new(InitType::Clear, &Vec::new());
    u.put_nebra();
    assert_eq!(live_cells(&u), (5..11).map(|c| (5, c)).collect::<Vec<_>>());
}

#[test]
fn render_has_height_lines_of_width_glyphs() {
    let u = Universe::new(InitType::Random, &pseudo_random_coins(11));
    let text = u.render();
    let lines: Vec<&str> = text.split_terminator('\n').collect();
    assert_eq!(lines.len(), 64);
    for line in lines {
        assert_eq!(line.chars().count(), 64);
    }
    assert!(text.ends_with('\n'));
}

#[test]
fn render_shows_live_and_dead_glyphs() {
    let u = universe_with(&[(0, 1)]);
    let text = u.render();
    let first: String = text.chars().take(3).collect();
    assert_eq!(first, "◼◻◼");
    assert_eq!(text.chars().count(), 64 * 65);
    assert_eq!(text.chars().filter(|&c| c == '◻').count(), 1);
}

#[test]
fn cells_exposes_packed_bits() {
    let u = universe_with(&[(0, 0), (0, 33), (63, 63)]);
    let words = u.cells();
    assert_eq!(words.len(), 128);
    assert_eq!(words[0], 1);
    assert_eq!(words[1], 2);
    assert_eq!(words[127], 1 << 31);
    assert_eq!(words.iter().map(|w| w.count_ones()).sum::<u32>(), 3);
}
