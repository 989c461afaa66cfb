use life::batch::{Batch, Step};
use life::cell::Cell;
use life::universe::{Universe, UniverseError};

const A: Cell = Cell::Alive;
const D: Cell = Cell::Dead;

fn grid(width: u32, height: u32, cells: Vec<Cell>) -> Universe {
    Universe::from_cells(1, width, height, cells).unwrap()
}

fn alive_positions(u: &Universe) -> Vec<usize> {
    let mut out = Vec::new();
    for (i, c) in u.cells().iter().enumerate() {
        if *c == Cell::Alive {
            out.push(i);
        }
    }
    out
}

#[test]
fn new_seeds_eight_by_eight() {
    let u = Universe::new(64, 8, 8).unwrap();
    assert_eq!(u.width(), 8);
    assert_eq!(u.height(), 8);
    assert_eq!(u.framerate(), 64);
    let expected: Vec<usize> = (0..64usize).filter(|i| i % 2 == 0 || i % 7 == 0).collect();
    assert_eq!(alive_positions(&u), expected);
}

#[test]
fn new_seeds_odd_multiples_of_seven() {
    let u = Universe::new(1, 3, 5).unwrap();
    assert_eq!(u.cells().len(), 15);
    assert_eq!(u.cells()[7], Cell::Alive);
    assert_eq!(u.cells()[1], Cell::Dead);
    assert_eq!(u.cells()[14], Cell::Alive);
}

#[test]
fn new_rejects_zero_width() {
    assert_eq!(Universe::new(1, 0, 4).err(), Some(UniverseError::EmptyDimension));
}

#[test]
fn new_rejects_zero_height() {
    assert_eq!(Universe::new(1, 4, 0).err(), Some(UniverseError::EmptyDimension));
}

#[test]
fn from_cells_rejects_zero_dimension() {
    assert_eq!(Universe::from_cells(1, 0, 0, vec![]).err(), Some(UniverseError::EmptyDimension));
}

#[test]
fn from_cells_rejects_wrong_count() {
    assert_eq!(
        Universe::from_cells(1, 2, 2, vec![A, D, A]).err(),
        Some(UniverseError::CellCountMismatch)
    );
}

#[test]
fn update_keeps_cell_count() {
    let mut u = Universe::new(10, 7, 4).unwrap();
    for _ in 0..5 {
        u.update();
        assert_eq!(u.cells().len(), 28);
        assert_eq!(u.width(), 7);
        assert_eq!(u.height(), 4);
    }
}

#[test]
fn update_uses_width_for_rows_on_a_wide_grid() {
    // A vertical triple in column 1 of a 4 wide, 5 high grid becomes a
    // horizontal triple in row 2.
    let mut cells = vec![D; 20];
    cells[1 * 4 + 1] = A;
    cells[2 * 4 + 1] = A;
    cells[3 * 4 + 1] = A;
    let mut u = grid(4, 5, cells);
    u.update();
    assert_eq!(alive_positions(&u), vec![8, 9, 10]);
}

#[test]
fn rule_live_cell_with_two_or_three_survives() {
    // Row 1 of a 5x5 grid: the centre of the triple has two neighbours.
    let mut cells = vec![D; 25];
    cells[5 + 1] = A;
    cells[5 + 2] = A;
    cells[5 + 3] = A;
    let mut u = grid(5, 5, cells);
    assert_eq!(u.live_neighbor_count(1, 2), 2);
    u.update();
    assert_eq!(u.cells()[7], Cell::Alive);
}

#[test]
fn rule_live_cell_with_three_survives() {
    // A 2x2 block: each cell has three live neighbours.
    let mut cells = vec![D; 25];
    for i in [6, 7, 11, 12] {
        cells[i] = A;
    }
    let mut u = grid(5, 5, cells);
    assert_eq!(u.live_neighbor_count(1, 1), 3);
    u.update();
    assert_eq!(alive_positions(&u), vec![6, 7, 11, 12]);
}

#[test]
fn rule_lonely_cell_dies() {
    let mut cells = vec![D; 25];
    cells[12] = A;
    let mut u = grid(5, 5, cells);
    assert_eq!(u.live_neighbor_count(2, 2), 0);
    u.update();
    assert!(alive_positions(&u).is_empty());
}

#[test]
fn rule_crowded_cell_dies() {
    // The centre has four live neighbours.
    let mut cells = vec![D; 25];
    for i in [6, 8, 12, 16, 18] {
        cells[i] = A;
    }
    let mut u = grid(5, 5, cells);
    assert_eq!(u.live_neighbor_count(2, 2), 4);
    u.update();
    assert_eq!(u.cells()[12], Cell::Dead);
}

#[test]
fn rule_dead_cell_with_three_is_born() {
    let mut cells = vec![D; 25];
    for i in [6, 7, 8] {
        cells[i] = A;
    }
    let mut u = grid(5, 5, cells);
    assert_eq!(u.live_neighbor_count(2, 2), 3);
    u.update();
    assert_eq!(u.cells()[12], Cell::Alive);
}

#[test]
fn rule_dead_cell_with_two_stays_dead() {
    let mut cells = vec![D; 25];
    cells[6] = A;
    cells[8] = A;
    let mut u = grid(5, 5, cells);
    assert_eq!(u.live_neighbor_count(2, 2), 2);
    u.update();
    assert_eq!(u.cells()[12], Cell::Dead);
}

#[test]
fn neighbors_wrap_from_top_to_bottom_row() {
    // 4x4 grid, only (3, 1) alive: it neighbours row 0.
    let mut cells = vec![D; 16];
    cells[3 * 4 + 1] = A;
    let u = grid(4, 4, cells);
    assert_eq!(u.live_neighbor_count(0, 0), 1);
    assert_eq!(u.live_neighbor_count(0, 1), 1);
    assert_eq!(u.live_neighbor_count(0, 2), 1);
    assert_eq!(u.live_neighbor_count(0, 3), 0);
    assert_eq!(u.live_neighbor_count(1, 1), 0);
}

#[test]
fn neighbors_wrap_from_left_to_right_column() {
    // 4x4 grid, only (1, 3) alive: it neighbours column 0.
    let mut cells = vec![D; 16];
    cells[1 * 4 + 3] = A;
    let u = grid(4, 4, cells);
    assert_eq!(u.live_neighbor_count(0, 0), 1);
    assert_eq!(u.live_neighbor_count(1, 0), 1);
    assert_eq!(u.live_neighbor_count(2, 0), 1);
    assert_eq!(u.live_neighbor_count(3, 0), 0);
    assert_eq!(u.live_neighbor_count(1, 1), 0);
}

#[test]
fn neighbors_wrap_at_the_corner() {
    let mut cells = vec![D; 16];
    cells[15] = A;
    let u = grid(4, 4, cells);
    assert_eq!(u.live_neighbor_count(0, 0), 1);
}

#[test]
fn single_cell_grid_counts_itself() {
    let u = grid(1, 1, vec![A]);
    assert_eq!(u.live_neighbor_count(0, 0), 8);
}

#[test]
fn cell_at_wraps_row_and_column() {
    let u = grid(3, 2, vec![A, D, D, D, D, A]);
    assert_eq!(u.cell_at(0, 0), Cell::Alive);
    assert_eq!(u.cell_at(2, 3), Cell::Alive);
    assert_eq!(u.cell_at(1, 2), Cell::Alive);
    assert_eq!(u.cell_at(3, 5), Cell::Alive);
    assert_eq!(u.cell_at(0, 1), Cell::Dead);
}

#[test]
fn get_index_is_row_major() {
    let u = grid(3, 2, vec![D; 6]);
    assert_eq!(u.get_index(0, 0), 0);
    assert_eq!(u.get_index(1, 2), 5);
    assert_eq!(u.get_index(1, 0), 3);
}

#[test]
fn all_dead_grid_stays_dead() {
    let mut u = grid(6, 4, vec![D; 24]);
    for _ in 0..10 {
        u.update();
        assert!(u.cells().iter().all(|c| *c == Cell::Dead));
    }
}

#[test]
fn update_is_deterministic() {
    let mut a = Universe::new(5, 9, 7).unwrap();
    let mut b = Universe::new(5, 9, 7).unwrap();
    for _ in 0..4 {
        a.update();
        b.update();
        assert_eq!(a.cells(), b.cells());
    }
}

#[test]
fn blinker_alternates_with_period_two() {
    let mut cells = vec![D; 25];
    for i in [11, 12, 13] {
        cells[i] = A;
    }
    let mut u = grid(5, 5, cells);
    u.update();
    assert_eq!(alive_positions(&u), vec![7, 12, 17]);
    u.update();
    assert_eq!(alive_positions(&u), vec![11, 12, 13]);
    u.update();
    assert_eq!(alive_positions(&u), vec![7, 12, 17]);
}

#[test]
fn blinker_on_three_by_three_torus_fills_then_dies() {
    // On a 3x3 torus every cell neighbours all eight others.
    let mut u = grid(3, 3, vec![D, D, D, A, A, A, D, D, D]);
    u.update();
    assert_eq!(alive_positions(&u), (0..9).collect::<Vec<usize>>());
    u.update();
    assert!(alive_positions(&u).is_empty());
}

#[test]
fn render_row_gives_glyphs_and_newline() {
    let u = grid(3, 2, vec![A, D, A, D, D, A]);
    assert_eq!(u.render_row(0), vec!["◼", "◻", "◼", "\n"]);
    assert_eq!(u.render_row(1), vec!["◻", "◻", "◼", "\n"]);
}

#[test]
fn render_row_past_last_row_is_newline_only() {
    let u = grid(3, 2, vec![A; 6]);
    assert_eq!(u.render_row(2), vec!["\n"]);
    assert_eq!(u.render_row(u32::MAX), vec!["\n"]);
}

#[test]
fn draw_joins_rows() {
    let u = grid(2, 2, vec![A, D, D, A]);
    assert_eq!(u.draw(), "◼◻\n◻◼\n");
}

#[test]
fn cell_render_and_value() {
    assert_eq!(Cell::Alive.render(), "◼");
    assert_eq!(Cell::Dead.render(), "◻");
    assert_eq!(Cell::Alive.value(), 1);
    assert_eq!(Cell::Dead.value(), 0);
}

#[test]
fn frame_interval_from_framerate() {
    assert_eq!(Universe::new(64, 2, 2).unwrap().frame_interval_nanos(), 15_625_000);
    assert_eq!(Universe::new(1, 2, 2).unwrap().frame_interval_nanos(), 1_000_000_000);
    assert_eq!(Universe::new(3, 2, 2).unwrap().frame_interval_nanos(), 333_333_333);
    assert_eq!(Universe::new(0, 2, 2).unwrap().frame_interval_nanos(), 0);
    assert_eq!(Universe::new(-4, 2, 2).unwrap().frame_interval_nanos(), 0);
}

#[test]
fn zero_tick_batch_does_nothing() {
    let mut b = Batch::new(0, 1_000);
    assert_eq!(b.remaining(), 0);
    for _ in 0..5 {
        assert_eq!(b.next(), Step::Finished);
    }
}

#[test]
fn negative_tick_batch_does_nothing() {
    let mut b = Batch::new(-3, 1_000);
    assert_eq!(b.next(), Step::Finished);
}

#[test]
fn batch_steps_through_each_generation() {
    let mut b = Batch::new(2, 500);
    let expected = [
        Step::Render,
        Step::Update,
        Step::Clear,
        Step::Sleep(500),
        Step::Render,
        Step::Update,
        Step::Clear,
        Step::Sleep(500),
        Step::Finished,
        Step::Finished,
    ];
    for e in expected {
        assert_eq!(b.next(), e);
    }
    assert_eq!(b.remaining(), 0);
}

#[test]
fn universe_batch_runs_framerate_generations() {
    let u = Universe::new(3, 2, 2).unwrap();
    let mut b = u.start_batch();
    assert_eq!(b.remaining(), 3);
    assert_eq!(b.next(), Step::Render);
    assert_eq!(b.next(), Step::Update);
    assert_eq!(b.next(), Step::Clear);
    assert_eq!(b.next(), Step::Sleep(333_333_333));
    assert_eq!(b.remaining(), 2);
}
