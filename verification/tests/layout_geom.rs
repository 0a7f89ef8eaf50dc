use game_of_life::{Cell, Universe, CELL_SIZE};

fn dead_grid(width: u32, height: u32) -> Universe {
    let bits = vec![false; (width * height) as usize];
    Universe::new(width, height, &bits)
}

#[test]
fn cell_size_is_fifteen_pixels() {
    assert_eq!(CELL_SIZE, 15);
}

#[test]
fn surface_dimensions_count_cells_and_grid_lines() {
    let u = dead_grid(3, 2);
    assert_eq!(u.surface_width(), (CELL_SIZE + 1) * 3 + 1);
    assert_eq!(u.surface_height(), (CELL_SIZE + 1) * 2 + 1);
    assert_eq!(u.surface_width(), 49);
    assert_eq!(u.surface_height(), 33);
}

#[test]
fn grid_lines_cover_every_column_then_every_row() {
    let u = dead_grid(2, 3);
    let lines = u.grid_lines();
    assert_eq!(lines.len(), 5);
    // Vertical lines, one per column, spanning the surface height.
    assert_eq!(lines[0], (1, 0, 1, 49));
    assert_eq!(lines[1], (17, 0, 17, 49));
    // Horizontal lines, one per row, spanning the surface width.
    assert_eq!(lines[2], (0, 1, 33, 1));
    assert_eq!(lines[3], (0, 17, 33, 17));
    assert_eq!(lines[4], (0, 33, 33, 33));
}

#[test]
fn cell_rects_pick_the_cells_in_the_given_state_in_row_major_order() {
    let bits = vec![false, true, true, false];
    let u = Universe::new(2, 2, &bits);
    assert_eq!(u.cell_rects(Cell::Alive), vec![(17, 1), (1, 17)]);
    assert_eq!(u.cell_rects(Cell::Dead), vec![(1, 1), (17, 17)]);
}

#[test]
fn cell_rects_of_an_empty_state_list_is_empty() {
    let u = dead_grid(2, 2);
    assert_eq!(u.cell_rects(Cell::Alive), Vec::<(u32, u32)>::new());
    assert_eq!(u.cell_rects(Cell::Dead).len(), 4);
}
