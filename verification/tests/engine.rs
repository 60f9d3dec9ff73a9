use game_of_life::Cell;
use game_of_life::Universe;

fn empty_grid(width: u32, height: u32) -> Universe {
    let mut u = Universe::new();
    u.set_width(width);
    u.set_height(height);
    u
}

fn alive_positions(u: &Universe) -> Vec<(u32, u32)> {
    let mut out = Vec::new();
    let cells = u.get_cells();
    for row in 0..u.height() {
        for col in 0..u.width() {
            if cells[(row * u.width() + col) as usize] == Cell::Alive {
                out.push((row, col));
            }
        }
    }
    out
}

#[test]
fn new_universe_has_default_size_and_seed() {
    let u = Universe::new();
    assert_eq!(u.width(), 64);
    assert_eq!(u.height(), 64);
    let cells = u.get_cells();
    assert_eq!(cells.len(), 4096);
    for i in 0..4096usize {
        let expected = if i % 2 == 0 || i % 7 == 0 { Cell::Alive } else { Cell::Dead };
        assert_eq!(cells[i], expected);
    }
}

#[test]
fn set_width_resets_every_cell_dead() {
    let mut u = Universe::new();
    u.set_width(3);
    assert_eq!(u.width(), 3);
    assert_eq!(u.height(), 64);
    let cells = u.get_cells();
    assert_eq!(cells.len(), 3 * 64);
    assert!(cells.iter().all(|c| *c == Cell::Dead));
}

#[test]
fn set_height_resets_every_cell_dead() {
    let mut u = Universe::new();
    u.set_height(5);
    assert_eq!(u.width(), 64);
    assert_eq!(u.height(), 5);
    let cells = u.get_cells();
    assert_eq!(cells.len(), 64 * 5);
    assert!(cells.iter().all(|c| *c == Cell::Dead));
}

#[test]
fn set_cells_is_additive_and_idempotent() {
    let mut u = empty_grid(3, 3);
    assert!(u.set_cells(&[(1, 2)]).is_ok());
    assert_eq!(alive_positions(&u), vec![(1, 2)]);
    // An overlapping second call must not toggle the cell back to dead.
    assert!(u.set_cells(&[(1, 2), (0, 0)]).is_ok());
    assert_eq!(alive_positions(&u), vec![(0, 0), (1, 2)]);
}

#[test]
fn set_cells_rejects_out_of_range_pair() {
    let mut u = empty_grid(3, 3);
    assert!(u.set_cells(&[(0, 0), (3, 0)]).is_err());
    // The whole call is rejected: nothing was seeded.
    assert_eq!(alive_positions(&u), vec![]);
    assert!(u.set_cells(&[(0, 3)]).is_err());
    assert_eq!(alive_positions(&u), vec![]);
}

#[test]
fn toggle_cell_flips_and_flips_back() {
    let mut u = empty_grid(3, 3);
    assert!(u.toggle_cell(1, 1).is_ok());
    assert_eq!(alive_positions(&u), vec![(1, 1)]);
    assert!(u.toggle_cell(1, 1).is_ok());
    assert_eq!(alive_positions(&u), vec![]);
}

#[test]
fn toggle_cell_rejects_out_of_range_instead_of_wrapping() {
    let mut u = Universe::new();
    let before: Vec<Cell> = u.get_cells().to_vec();
    let h = u.height();
    let w = u.width();
    assert!(u.toggle_cell(h, 0).is_err());
    assert!(u.toggle_cell(0, w).is_err());
    assert_eq!(u.get_cells(), before.as_slice());
}

#[test]
fn cell_toggle_flips_both_ways() {
    let mut c = Cell::Dead;
    c.toggle();
    assert_eq!(c, Cell::Alive);
    c.toggle();
    assert_eq!(c, Cell::Dead);
}

#[test]
fn neighbor_counts_stay_within_range() {
    let u = Universe::new();
    for row in 0..u.height() {
        for col in 0..u.width() {
            assert!(u.live_neighbor_count(row, col) <= 8);
        }
    }
}

#[test]
fn toggling_a_corner_raises_the_opposite_corner_count() {
    let mut u = empty_grid(3, 3);
    assert_eq!(u.live_neighbor_count(2, 2), 0);
    assert!(u.toggle_cell(0, 0).is_ok());
    assert_eq!(u.live_neighbor_count(2, 2), 1);
}

#[test]
fn neighbor_count_is_exact_for_a_blinker() {
    let mut u = empty_grid(5, 5);
    assert!(u.set_cells(&[(1, 2), (2, 2), (3, 2)]).is_ok());
    assert_eq!(u.live_neighbor_count(2, 2), 2);
    assert_eq!(u.live_neighbor_count(2, 1), 3);
    assert_eq!(u.live_neighbor_count(2, 3), 3);
    assert_eq!(u.live_neighbor_count(1, 2), 1);
    assert_eq!(u.live_neighbor_count(0, 2), 1);
}

#[test]
fn blinker_oscillates_with_period_two() {
    let mut u = empty_grid(5, 5);
    assert!(u.set_cells(&[(1, 2), (2, 2), (3, 2)]).is_ok());
    u.tick();
    assert_eq!(alive_positions(&u), vec![(2, 1), (2, 2), (2, 3)]);
    u.tick();
    assert_eq!(alive_positions(&u), vec![(1, 2), (2, 2), (3, 2)]);
}

#[test]
fn full_column_on_3x3_torus_floods_then_dies() {
    // On a 3x3 torus a vertical line is a full column: every live cell keeps
    // two live neighbors and every dead cell sees exactly three, so one tick
    // fills the grid, and the next kills every cell by overcrowding.
    let mut u = empty_grid(3, 3);
    assert!(u.set_cells(&[(0, 1), (1, 1), (2, 1)]).is_ok());
    u.tick();
    assert_eq!(alive_positions(&u).len(), 9);
    u.tick();
    assert_eq!(alive_positions(&u), vec![]);
}

#[test]
fn block_is_stable_on_a_4x4_torus() {
    let mut u = empty_grid(4, 4);
    let block = [(0, 0), (0, 1), (1, 0), (1, 1)];
    assert!(u.set_cells(&block).is_ok());
    for _ in 0..4 {
        u.tick();
        assert_eq!(alive_positions(&u), vec![(0, 0), (0, 1), (1, 0), (1, 1)]);
    }
}

#[test]
fn full_2x2_torus_dies_of_overcrowding() {
    // Every cell of a fully live 2x2 torus counts all eight neighbor slots
    // on live cells, so the whole grid dies in one tick.
    let mut u = empty_grid(2, 2);
    assert!(u.set_cells(&[(0, 0), (0, 1), (1, 0), (1, 1)]).is_ok());
    u.tick();
    assert_eq!(alive_positions(&u), vec![]);
}

#[test]
fn single_cell_torus_counts_itself_eight_times() {
    let mut u = empty_grid(1, 1);
    assert!(u.set_cells(&[(0, 0)]).is_ok());
    assert_eq!(u.live_neighbor_count(0, 0), 8);
    u.tick();
    assert_eq!(alive_positions(&u), vec![]);
}

#[test]
fn tick_on_degenerate_grid_is_a_noop() {
    let mut u = Universe::new();
    u.set_width(0);
    u.tick();
    assert_eq!(u.width(), 0);
    assert_eq!(u.height(), 64);
    assert_eq!(u.get_cells().len(), 0);
    let mut v = Universe::new();
    v.set_height(0);
    v.tick();
    assert_eq!(v.get_cells().len(), 0);
}

#[test]
fn cells_views_agree_and_match_dimensions() {
    let u = Universe::new();
    assert_eq!(u.cells(), u.get_cells());
    assert_eq!(u.cells().len(), (u.width() * u.height()) as usize);
}
