use life_grid::grid::Grid;
use life_grid::grid::GridError;
use life_grid::rng::rng_from_seed;

fn grid_from(pattern: Vec<Vec<bool>>, cell_size: u32) -> Grid {
    Grid::from_cells(pattern, cell_size).unwrap()
}

fn snapshot(grid: &Grid) -> Vec<Vec<bool>> {
    let (width, height) = grid.dimensions();
    let mut rows: Vec<Vec<bool>> = Vec::new();
    for r in 0..height as usize {
        let mut row: Vec<bool> = Vec::new();
        for c in 0..width as usize {
            row.push(grid.is_alive(r, c));
        }
        rows.push(row);
    }
    rows
}

#[test]
fn new_rejects_zero_width() {
    let mut rng = rng_from_seed(1);
    assert_eq!(
        Grid::new(0, 4, 10, &mut rng).unwrap_err(),
        GridError::InvalidDimension
    );
}

#[test]
fn new_rejects_zero_height() {
    let mut rng = rng_from_seed(1);
    assert_eq!(
        Grid::new(4, 0, 10, &mut rng).unwrap_err(),
        GridError::InvalidDimension
    );
}

#[test]
fn new_rejects_zero_cell_size() {
    let mut rng = rng_from_seed(1);
    assert_eq!(
        Grid::new(4, 4, 0, &mut rng).unwrap_err(),
        GridError::InvalidDimension
    );
}

#[test]
fn new_rejects_oversized_pixel_extent() {
    let mut rng = rng_from_seed(1);
    assert_eq!(
        Grid::new(u32::MAX, 1, 2, &mut rng).unwrap_err(),
        GridError::InvalidDimension
    );
}

#[test]
fn new_builds_requested_dimensions() {
    let mut rng = rng_from_seed(7);
    let grid = Grid::new(32, 24, 25, &mut rng).unwrap();
    assert_eq!(grid.dimensions(), (32, 24));
    assert_eq!(grid.cell_size(), 25);
}

#[test]
fn new_is_deterministic_for_a_seed() {
    let mut rng_a = rng_from_seed(42);
    let mut rng_b = rng_from_seed(42);
    let a = Grid::new(16, 12, 10, &mut rng_a).unwrap();
    let b = Grid::new(16, 12, 10, &mut rng_b).unwrap();
    assert_eq!(snapshot(&a), snapshot(&b));
}

#[test]
fn from_cells_rejects_empty_matrix() {
    assert_eq!(
        Grid::from_cells(Vec::new(), 10).unwrap_err(),
        GridError::InvalidDimension
    );
}

#[test]
fn from_cells_rejects_empty_rows() {
    let pattern: Vec<Vec<bool>> = vec![vec![], vec![]];
    assert_eq!(
        Grid::from_cells(pattern, 10).unwrap_err(),
        GridError::InvalidDimension
    );
}

#[test]
fn from_cells_rejects_ragged_rows() {
    let pattern = vec![vec![false, false], vec![false]];
    assert_eq!(
        Grid::from_cells(pattern, 10).unwrap_err(),
        GridError::InvalidDimension
    );
}

#[test]
fn from_cells_rejects_zero_cell_size() {
    let pattern = vec![vec![false, false], vec![false, false]];
    assert_eq!(
        Grid::from_cells(pattern, 0).unwrap_err(),
        GridError::InvalidDimension
    );
}

#[test]
fn cells_per_axis_truncates() {
    assert_eq!(Grid::cells_per_axis(800, 25), 32);
    assert_eq!(Grid::cells_per_axis(601, 25), 24);
    assert_eq!(Grid::cells_per_axis(24, 25), 0);
    assert_eq!(Grid::cells_per_axis(0, 25), 0);
}

#[test]
fn from_cells_keeps_the_pattern() {
    let pattern = vec![vec![true, false, true], vec![false, true, false]];
    let grid = grid_from(pattern.clone(), 5);
    assert_eq!(grid.dimensions(), (3, 2));
    assert_eq!(snapshot(&grid), pattern);
}

#[test]
fn neighbor_count_is_zero_on_a_dead_grid() {
    let grid = grid_from(vec![vec![false; 3]; 3], 1);
    for r in 0..3 {
        for c in 0..3 {
            assert_eq!(grid.count_live_neighbors(r, c), 0);
        }
    }
}

#[test]
fn neighbor_count_center_of_full_grid_is_eight() {
    let grid = grid_from(vec![vec![true; 3]; 3], 1);
    assert_eq!(grid.count_live_neighbors(1, 1), 8);
}

#[test]
fn neighbor_count_corners_of_full_grid_are_three() {
    let grid = grid_from(vec![vec![true; 4]; 4], 1);
    assert_eq!(grid.count_live_neighbors(0, 0), 3);
    assert_eq!(grid.count_live_neighbors(0, 3), 3);
    assert_eq!(grid.count_live_neighbors(3, 0), 3);
    assert_eq!(grid.count_live_neighbors(3, 3), 3);
}

#[test]
fn neighbor_count_does_not_wrap_around_edges() {
    // Live cells sit at the two opposite corners; on a torus each would
    // see the other, on a hard-edged grid neither does.
    let mut pattern = vec![vec![false; 3]; 3];
    pattern[0][0] = true;
    pattern[2][2] = true;
    let grid = grid_from(pattern, 1);
    assert_eq!(grid.count_live_neighbors(0, 0), 0);
    assert_eq!(grid.count_live_neighbors(2, 2), 0);
}

#[test]
fn advance_is_deterministic() {
    let pattern = vec![
        vec![false, true, false, true],
        vec![true, true, false, false],
        vec![false, false, true, true],
        vec![true, false, true, false],
    ];
    let mut a = grid_from(pattern.clone(), 2);
    let mut b = grid_from(pattern, 2);
    for _ in 0..5 {
        a.advance();
        b.advance();
        assert_eq!(snapshot(&a), snapshot(&b));
    }
}

#[test]
fn block_is_a_still_life() {
    let mut pattern = vec![vec![false; 4]; 4];
    pattern[1][1] = true;
    pattern[1][2] = true;
    pattern[2][1] = true;
    pattern[2][2] = true;
    let mut grid = grid_from(pattern.clone(), 1);
    for _ in 0..10 {
        grid.advance();
        assert_eq!(snapshot(&grid), pattern);
    }
}

#[test]
fn blinker_oscillates_with_period_two() {
    let mut horizontal = vec![vec![false; 5]; 5];
    horizontal[2][1] = true;
    horizontal[2][2] = true;
    horizontal[2][3] = true;
    let mut vertical = vec![vec![false; 5]; 5];
    vertical[1][2] = true;
    vertical[2][2] = true;
    vertical[3][2] = true;
    let mut grid = grid_from(horizontal.clone(), 1);
    grid.advance();
    assert_eq!(snapshot(&grid), vertical);
    grid.advance();
    assert_eq!(snapshot(&grid), horizontal);
}

#[test]
fn dead_cell_with_three_neighbors_is_born() {
    let mut pattern = vec![vec![false; 3]; 3];
    pattern[0][0] = true;
    pattern[0][2] = true;
    pattern[2][1] = true;
    let mut grid = grid_from(pattern, 1);
    assert_eq!(grid.count_live_neighbors(1, 1), 3);
    grid.advance();
    assert!(grid.is_alive(1, 1));
}

#[test]
fn dead_cell_with_two_neighbors_stays_dead() {
    let mut pattern = vec![vec![false; 3]; 3];
    pattern[0][0] = true;
    pattern[0][2] = true;
    let mut grid = grid_from(pattern, 1);
    assert_eq!(grid.count_live_neighbors(1, 1), 2);
    grid.advance();
    assert!(!grid.is_alive(1, 1));
}

#[test]
fn dead_cell_with_four_neighbors_stays_dead() {
    let mut pattern = vec![vec![false; 3]; 3];
    pattern[0][0] = true;
    pattern[0][2] = true;
    pattern[2][0] = true;
    pattern[2][2] = true;
    let mut grid = grid_from(pattern, 1);
    assert_eq!(grid.count_live_neighbors(1, 1), 4);
    grid.advance();
    assert!(!grid.is_alive(1, 1));
}

#[test]
fn live_cell_with_two_neighbors_survives() {
    let mut pattern = vec![vec![false; 3]; 3];
    pattern[1][1] = true;
    pattern[0][0] = true;
    pattern[0][2] = true;
    let mut grid = grid_from(pattern, 1);
    assert_eq!(grid.count_live_neighbors(1, 1), 2);
    grid.advance();
    assert!(grid.is_alive(1, 1));
}

#[test]
fn live_cell_with_three_neighbors_survives() {
    let mut pattern = vec![vec![false; 3]; 3];
    pattern[1][1] = true;
    pattern[0][0] = true;
    pattern[0][2] = true;
    pattern[2][1] = true;
    let mut grid = grid_from(pattern, 1);
    assert_eq!(grid.count_live_neighbors(1, 1), 3);
    grid.advance();
    assert!(grid.is_alive(1, 1));
}

#[test]
fn live_cell_with_no_neighbors_dies() {
    let mut pattern = vec![vec![false; 3]; 3];
    pattern[1][1] = true;
    let mut grid = grid_from(pattern, 1);
    assert_eq!(grid.count_live_neighbors(1, 1), 0);
    grid.advance();
    assert!(!grid.is_alive(1, 1));
}

#[test]
fn live_cell_with_one_neighbor_dies() {
    let mut pattern = vec![vec![false; 3]; 3];
    pattern[1][1] = true;
    pattern[0][0] = true;
    let mut grid = grid_from(pattern, 1);
    assert_eq!(grid.count_live_neighbors(1, 1), 1);
    grid.advance();
    assert!(!grid.is_alive(1, 1));
}

#[test]
fn live_cell_with_four_neighbors_dies() {
    let mut pattern = vec![vec![false; 3]; 3];
    pattern[1][1] = true;
    pattern[0][0] = true;
    pattern[0][2] = true;
    pattern[2][0] = true;
    pattern[2][2] = true;
    let mut grid = grid_from(pattern, 1);
    assert_eq!(grid.count_live_neighbors(1, 1), 4);
    grid.advance();
    assert!(!grid.is_alive(1, 1));
}
