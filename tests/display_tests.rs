use fluid_grid::brush::{brush_cells, brush_radius, pointer_cell};
use fluid_grid::frame::{pack_channels, unpack_channels, Frame, FrameError};
use fluid_grid::grid::{Grid, GridError};

#[test]
fn pointer_maps_to_cell_by_division() {
    assert_eq!(pointer_cell(0, 0, 5), (0, 0));
    assert_eq!(pointer_cell(14, 27, 5), (2, 5));
    assert_eq!(pointer_cell(799, 599, 1), (799, 599));
}

#[test]
fn brush_radius_in_cells() {
    assert_eq!(brush_radius(10, 5), 2);
    assert_eq!(brush_radius(10, 3), 3);
    assert_eq!(brush_radius(10, 1), 10);
    assert_eq!(brush_radius(10, 0), 10);
}

#[test]
fn brush_covers_disc_around_centre() {
    let g = Grid::new(10, 10).unwrap();
    assert_eq!(
        brush_cells(&g, 5, 5, 1),
        vec![(4, 5), (5, 4), (5, 5), (5, 6), (6, 5)]
    );
    assert_eq!(brush_cells(&g, 5, 5, 0), vec![(5, 5)]);
    let disc = brush_cells(&g, 4, 4, 2);
    assert_eq!(disc.len(), 13);
    assert!(disc.contains(&(3, 3)));
    assert!(disc.contains(&(2, 4)));
    assert!(!disc.contains(&(2, 2)));
    assert!(!disc.contains(&(2, 3)));
}

#[test]
fn brush_is_clipped_to_interior() {
    let g = Grid::new(6, 6).unwrap();
    let cells = brush_cells(&g, 2, 2, usize::MAX);
    assert_eq!(cells.len(), 16);
    assert_eq!(cells[0], (1, 1));
    assert_eq!(cells[15], (4, 4));
    assert!(cells.iter().all(|&(x, y)| g.is_interior(x, y)));
}

#[test]
fn brush_near_edge_paints_nothing() {
    let g = Grid::new(10, 10).unwrap();
    assert!(brush_cells(&g, 1, 5, 2).is_empty());
    assert!(brush_cells(&g, 5, 1, 2).is_empty());
    assert!(brush_cells(&g, 9, 5, 2).is_empty());
    assert_eq!(brush_cells(&g, 8, 5, 0), vec![(8, 5)]);
    assert!(brush_cells(&g, 5, 9, 2).is_empty());
    assert!(brush_cells(&g, 50, 50, 2).is_empty());
    assert_eq!(brush_cells(&g, 2, 7, 0), vec![(2, 7)]);
}

#[test]
fn channels_pack_and_unpack() {
    assert_eq!(pack_channels(0x12, 0x34, 0x56), 0x0012_3456);
    assert_eq!(pack_channels(255, 255, 255), 0x00ff_ffff);
    assert_eq!(pack_channels(0, 0, 0), 0);
    assert_eq!(unpack_channels(0x00ab_cdef), (0xef, 0xcd, 0xab));
    assert_eq!(unpack_channels(0xff12_3456), (0x56, 0x34, 0x12));
    let (lo, mid, hi) = unpack_channels(0x0001_0203);
    assert_eq!(pack_channels(hi, mid, lo), 0x0001_0203);
}

#[test]
fn frame_rejects_zero_precision_and_overflow() {
    assert_eq!(Frame::new(800, 600, 0).unwrap_err(), FrameError::ZeroPrecision);
    assert_eq!(Frame::new(usize::MAX, 2, 1).unwrap_err(), FrameError::TooLarge);
}

#[test]
fn frame_grid_has_one_cell_per_block() {
    let f = Frame::new(800, 600, 5).unwrap();
    assert_eq!(f.len(), 480_000);
    let g = f.grid().unwrap();
    assert_eq!((g.width(), g.height()), (160, 120));
    let small = Frame::new(10, 12, 5).unwrap();
    assert_eq!(small.grid().unwrap_err(), GridError::TooSmall);
}

#[test]
fn block_pixels_cover_the_cell() {
    let f = Frame::new(10, 6, 2).unwrap();
    assert_eq!(f.block_pixels(0, 0), vec![0, 1, 10, 11]);
    assert_eq!(f.block_pixels(1, 2), vec![42, 43, 52, 53]);
    assert_eq!(f.block_pixels(4, 2), vec![48, 49, 58, 59]);
    let unit = Frame::new(7, 3, 1).unwrap();
    assert_eq!(unit.block_pixels(6, 2), vec![20]);
}
