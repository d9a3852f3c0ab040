//! Tests of the playfield geometry.

use insiculous_snake::grid::{
    cell_to_world_px, in_bounds, wrap_coord, Cell, CELL_PX, GRID_COLS, GRID_ROWS, WIN_H, WIN_W,
};

#[test]
fn grid_is_centered_horizontally() {
    let left = cell_to_world_px(Cell::new(0, 0)).0;
    let right = cell_to_world_px(Cell::new(GRID_COLS - 1, 0)).0;
    assert_eq!(left + right, 0, "columns must mirror around x = 0");
}

#[test]
fn adjacent_cells_are_one_cell_apart() {
    let a = cell_to_world_px(Cell::new(3, 3));
    let b = cell_to_world_px(Cell::new(4, 3));
    let c = cell_to_world_px(Cell::new(3, 4));
    assert_eq!(b.0 - a.0, CELL_PX);
    assert_eq!(c.1 - a.1, CELL_PX, "row + 1 must move up in world space");
}

#[test]
fn playfield_fits_inside_the_window_with_hud_room() {
    let top = cell_to_world_px(Cell::new(0, GRID_ROWS - 1)).1 + CELL_PX / 2;
    let bottom = cell_to_world_px(Cell::new(0, 0)).1 - CELL_PX / 2;
    let side = cell_to_world_px(Cell::new(GRID_COLS - 1, 0)).0 + CELL_PX / 2;
    assert!(top < WIN_H / 2 - 40, "HUD band above the field: top edge {top}");
    assert!(bottom > -WIN_H / 2 + 30, "banner room below the field: {bottom}");
    assert!(side < WIN_W / 2 - 10, "field must fit horizontally: {side}");
}

#[test]
fn in_bounds_matches_grid_extents() {
    assert!(in_bounds(Cell::new(0, 0)));
    assert!(in_bounds(Cell::new(GRID_COLS - 1, GRID_ROWS - 1)));
    assert!(!in_bounds(Cell::new(-1, 0)));
    assert!(!in_bounds(Cell::new(0, GRID_ROWS)));
    assert!(!in_bounds(Cell::new(GRID_COLS, 0)));
    assert!(!in_bounds(Cell::new(0, -1)));
}

#[test]
fn cell_centers_have_exact_pixel_positions() {
    assert_eq!(cell_to_world_px(Cell::new(0, 0)), (-350, -220));
    assert_eq!(cell_to_world_px(Cell::new(13, 8)), (14, 4));
    assert_eq!(cell_to_world_px(Cell::new(25, 15)), (350, 200));
}

#[test]
fn wrap_coord_is_the_euclidean_remainder() {
    assert_eq!(wrap_coord(26, GRID_COLS), 0);
    assert_eq!(wrap_coord(-1, GRID_COLS), 25);
    assert_eq!(wrap_coord(-27, GRID_COLS), 25);
    assert_eq!(wrap_coord(5, GRID_COLS), 5);
    assert_eq!(wrap_coord(i32::MIN, GRID_ROWS), i32::MIN.rem_euclid(GRID_ROWS));
    assert_eq!(wrap_coord(i32::MAX, GRID_ROWS), i32::MAX.rem_euclid(GRID_ROWS));
}

#[test]
fn wall_bars_frame_the_playfield() {
    let bars = insiculous_snake::grid::wall_bars();
    let got: Vec<(&str, (i32, i32), (i32, i32))> =
        bars.iter().map(|b| (b.name, b.center, b.size)).collect();
    assert_eq!(
        got,
        vec![
            ("Wall Top", (0, 217), (740, 6)),
            ("Wall Bottom", (0, -237), (740, 6)),
            ("Wall Left", (-367, -10), (6, 448)),
            ("Wall Right", (367, -10), (6, 448)),
        ]
    );
    // The top bar's lower edge is the field's top edge.
    let top_cell = cell_to_world_px(Cell::new(0, GRID_ROWS - 1)).1 + CELL_PX / 2;
    assert_eq!(bars[0].center.1 - bars[0].size.1 / 2, top_cell);
}
