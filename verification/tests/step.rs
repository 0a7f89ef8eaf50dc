use game_of_life::{Cell, Universe};

fn grid_with_alive(width: u32, height: u32, alive: &[(u32, u32)]) -> Universe {
    let bits = vec![false; (width * height) as usize];
    let mut u = Universe::new(width, height, &bits);
    u.set_cells(&alive.to_vec());
    u
}

fn alive_positions(u: &Universe) -> Vec<(u32, u32)> {
    let mut out = Vec::new();
    for row in 0..u.height() {
        for col in 0..u.width() {
            if u.cells()[u.get_index(row, col)] == Cell::Alive {
                out.push((row, col));
            }
        }
    }
    out
}

#[test]
fn all_dead_grid_stays_all_dead() {
    let mut u = grid_with_alive(3, 3, &[]);
    u.tick();
    assert!(u.cells().iter().all(|c| *c == Cell::Dead));
}

#[test]
fn isolated_cell_dies() {
    let mut u = grid_with_alive(3, 3, &[(1, 1)]);
    u.tick();
    assert!(u.cells().iter().all(|c| *c == Cell::Dead));
}

#[test]
fn block_is_still() {
    let mut u = grid_with_alive(4, 4, &[(1, 1), (1, 2), (2, 1), (2, 2)]);
    u.tick();
    assert_eq!(alive_positions(&u), vec![(1, 1), (1, 2), (2, 1), (2, 2)]);
}

#[test]
fn blinker_advances_atomically() {
    // A row of three live cells: were a step applied in place, the middle
    // row's freshly written neighbors would corrupt later counts; the
    // snapshotted step turns the row into a column.
    let mut u = grid_with_alive(5, 5, &[(2, 1), (2, 2), (2, 3)]);
    u.tick();
    assert_eq!(alive_positions(&u), vec![(1, 2), (2, 2), (3, 2)]);
    u.tick();
    assert_eq!(alive_positions(&u), vec![(2, 1), (2, 2), (2, 3)]);
}

#[test]
fn step_is_deterministic_for_a_fixed_grid() {
    let pattern = [(0, 1), (1, 2), (2, 0), (2, 1), (2, 2)];
    let mut a = grid_with_alive(6, 6, &pattern);
    let mut b = grid_with_alive(6, 6, &pattern);
    a.tick();
    b.tick();
    assert_eq!(a.get_cells(), b.get_cells());
}

#[test]
fn glider_translates_by_one_after_four_steps() {
    let glider = [(0, 1), (1, 2), (2, 0), (2, 1), (2, 2)];
    let mut u = grid_with_alive(6, 6, &glider);
    for _ in 0..4 {
        u.tick();
    }
    let translated: Vec<(u32, u32)> = {
        let mut t: Vec<(u32, u32)> = glider.iter().map(|&(r, c)| (r + 1, c + 1)).collect();
        t.sort();
        t
    };
    assert_eq!(alive_positions(&u), translated);
}

#[test]
fn glider_wraps_around_the_torus() {
    let glider = [(0, 1), (1, 2), (2, 0), (2, 1), (2, 2)];
    let mut u = grid_with_alive(6, 6, &glider);
    // One full trip around a 6x6 torus: 6 diagonal moves of 4 steps each.
    for _ in 0..24 {
        u.tick();
    }
    let mut expected: Vec<(u32, u32)> = glider.to_vec();
    expected.sort();
    assert_eq!(alive_positions(&u), expected);
}

#[test]
fn lone_cell_on_one_by_one_grid_dies_of_overpopulation() {
    // Every one of the eight toroidal offsets reaches the cell itself, so
    // the live cell sees eight live neighbors.
    let mut u = grid_with_alive(1, 1, &[(0, 0)]);
    u.tick();
    assert_eq!(u.cells()[0], Cell::Dead);
}

#[test]
fn overpopulated_cell_dies_and_corner_is_born() {
    let mut u = grid_with_alive(4, 4, &[(0, 0), (0, 1), (0, 2), (1, 0), (1, 1)]);
    u.tick();
    // (1, 1) had four live neighbors and dies; (1, 2) had exactly three
    // and is born.
    let alive = alive_positions(&u);
    assert!(!alive.contains(&(1, 1)));
    assert!(alive.contains(&(1, 2)));
}
