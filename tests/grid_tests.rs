use fluid_grid::grid::{Grid, GridError, Stencil};
use fluid_grid::sampling::{sample_corners, Corners};
use fluid_grid::stepper::{step_stages, Stage, DIFFUSION_ITERATIONS, PRESSURE_ITERATIONS};

#[test]
fn construction_fails_without_interior_cells() {
    assert_eq!(Grid::new(2, 5).unwrap_err(), GridError::TooSmall);
    assert_eq!(Grid::new(5, 2).unwrap_err(), GridError::TooSmall);
    assert_eq!(Grid::new(2, 2).unwrap_err(), GridError::TooSmall);
    assert_eq!(Grid::new(0, 10).unwrap_err(), GridError::TooSmall);
}

#[test]
fn smallest_grid_is_accepted() {
    let g = Grid::new(3, 3).unwrap();
    assert_eq!(g.width(), 3);
    assert_eq!(g.height(), 3);
    assert_eq!(g.len(), 9);
    assert_eq!(g.interior_cells(), vec![(1, 1)]);
}

#[test]
fn construction_fails_when_cell_count_overflows() {
    assert_eq!(Grid::new(usize::MAX, 3).unwrap_err(), GridError::TooLarge);
    assert_eq!(Grid::new(usize::MAX / 2, usize::MAX / 2).unwrap_err(), GridError::TooLarge);
}

#[test]
fn index_is_column_major() {
    let g = Grid::new(5, 4).unwrap();
    assert_eq!(g.index(0, 0), 0);
    assert_eq!(g.index(0, 3), 3);
    assert_eq!(g.index(1, 0), 4);
    assert_eq!(g.index(2, 3), 11);
    assert_eq!(g.index(4, 3), 19);
}

#[test]
fn checked_index_rejects_out_of_range_cells() {
    let g = Grid::new(5, 4).unwrap();
    assert_eq!(g.checked_index(2, 3), Some(11));
    assert_eq!(g.checked_index(5, 0), None);
    assert_eq!(g.checked_index(0, 4), None);
    assert_eq!(g.checked_index(usize::MAX, usize::MAX), None);
}

#[test]
fn interior_and_border_cells() {
    let g = Grid::new(5, 5).unwrap();
    assert!(g.is_interior(1, 1));
    assert!(g.is_interior(3, 3));
    assert!(!g.is_interior(0, 2));
    assert!(!g.is_interior(4, 2));
    assert!(!g.is_interior(2, 4));
    assert!(g.is_border(0, 0));
    assert!(g.is_border(4, 4));
    assert!(g.is_border(2, 0));
    assert!(!g.is_border(2, 2));
    assert!(!g.is_border(5, 2));
}

#[test]
fn stencil_names_the_four_neighbours() {
    let g = Grid::new(5, 4).unwrap();
    let s = g.stencil(2, 1);
    assert_eq!(
        s,
        Stencil { center: 9, x_next: 13, x_prev: 5, y_next: 10, y_prev: 8 }
    );
}

#[test]
fn interior_cells_walk_columns_in_order() {
    let g = Grid::new(4, 5).unwrap();
    assert_eq!(
        g.interior_cells(),
        vec![(1, 1), (1, 2), (1, 3), (2, 1), (2, 2), (2, 3)]
    );
    let big = Grid::new(10, 7).unwrap();
    let cells = big.interior_cells();
    assert_eq!(cells.len(), 8 * 5);
    assert_eq!(cells[0], (1, 1));
    assert_eq!(cells[cells.len() - 1], (8, 5));
}

#[test]
fn sampling_at_a_cell_uses_that_cell() {
    let g = Grid::new(5, 5).unwrap();
    for x in 0..5i64 {
        for y in 0..5i64 {
            let c = sample_corners(&g, x, y);
            assert_eq!(c.x0 as i64, x);
            assert_eq!(c.y0 as i64, y);
        }
    }
    assert_eq!(sample_corners(&g, 2, 3), Corners { x0: 2, x1: 3, y0: 3, y1: 4 });
}

#[test]
fn sampling_clamps_to_the_grid() {
    let g = Grid::new(5, 6).unwrap();
    assert_eq!(sample_corners(&g, -3, -1), Corners { x0: 0, x1: 1, y0: 0, y1: 1 });
    assert_eq!(sample_corners(&g, 4, 5), Corners { x0: 4, x1: 4, y0: 5, y1: 5 });
    assert_eq!(sample_corners(&g, 100, 7), Corners { x0: 4, x1: 4, y0: 5, y1: 5 });
    assert_eq!(sample_corners(&g, i64::MIN, i64::MAX), Corners { x0: 0, x1: 1, y0: 5, y1: 5 });
}

#[test]
fn step_runs_projection_before_density_transport() {
    assert_eq!(PRESSURE_ITERATIONS, 20);
    assert_eq!(DIFFUSION_ITERATIONS, 10);
    assert_eq!(
        step_stages(),
        vec![
            Stage::AdvectVelocity,
            Stage::EnforceIncompressibility { iterations: 20 },
            Stage::DiffuseDensity { iterations: 10 },
            Stage::AdvectDensity,
        ]
    );
}
