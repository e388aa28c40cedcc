use life_grid::game::{Cell, Frame};

fn frame_with(width: u32, height: u32, alive: &[(u32, u32)]) -> Frame {
    let mut f = Frame::new(width, height).unwrap();
    for &(x, y) in alive {
        f.set_cell(x, y, Cell::Alive);
    }
    f
}

fn alive_cells(f: &Frame) -> Vec<(u32, u32)> {
    let mut out = Vec::new();
    for y in 0..f.height {
        for x in 0..f.width {
            if f.get_cell(x, y) == Cell::Alive {
                out.push((x, y));
            }
        }
    }
    out
}

/// The next generation and its changes, computed with signed arithmetic.
fn expected_step(f: &Frame) -> (Vec<Cell>, Vec<(u32, u32, Cell)>) {
    let w = f.width as i64;
    let h = f.height as i64;
    let mut cells = Vec::new();
    let mut diff = Vec::new();
    for y in 0..h {
        for x in 0..w {
            let mut n = 0;
            for dy in -1i64..=1 {
                for dx in -1i64..=1 {
                    if dx == 0 && dy == 0 {
                        continue;
                    }
                    let nx = (x + dx).rem_euclid(w);
                    let ny = (y + dy).rem_euclid(h);
                    if f.cells[(ny * w + nx) as usize] == Cell::Alive {
                        n += 1;
                    }
                }
            }
            let cur = f.cells[(y * w + x) as usize];
            let next = match cur {
                Cell::Alive if n != 2 && n != 3 => Cell::Dead,
                Cell::Dead if n == 3 => Cell::Alive,
                c => c,
            };
            if next != cur {
                diff.push((x as u32, y as u32, next));
            }
            cells.push(next);
        }
    }
    (cells, diff)
}

#[test]
fn all_dead_grid_stays_dead() {
    for &(w, h) in &[(1u32, 1u32), (1, 7), (7, 1), (2, 2), (3, 5), (42, 42)] {
        let mut f = Frame::new(w, h).unwrap();
        let diff = f.step();
        assert!(diff.is_empty());
        assert_eq!(f.width, w);
        assert_eq!(f.height, h);
        assert_eq!(f.cells.len(), (w * h) as usize);
        assert!(f.cells.iter().all(|c| *c == Cell::Dead));
    }
}

#[test]
fn block_is_a_still_life() {
    let block = [(1, 1), (2, 1), (1, 2), (2, 2)];
    for &(w, h) in &[(4u32, 4u32), (5, 4), (6, 6), (42, 42)] {
        let mut f = frame_with(w, h, &block);
        let before = f.cells.clone();
        let diff = f.step();
        assert!(diff.is_empty());
        assert_eq!(f.cells, before);
    }
}

#[test]
fn block_across_the_seam_is_a_still_life() {
    let mut f = frame_with(6, 5, &[(5, 4), (0, 4), (5, 0), (0, 0)]);
    let before = f.cells.clone();
    let diff = f.step();
    assert!(diff.is_empty());
    assert_eq!(f.cells, before);
}

#[test]
fn blinker_oscillates() {
    let horizontal = vec![(1, 2), (2, 2), (3, 2)];
    let vertical = vec![(2, 1), (2, 2), (2, 3)];
    let mut f = frame_with(5, 5, &horizontal);

    let first = f.step();
    assert_eq!(
        first,
        vec![(2, 1, Cell::Alive), (1, 2, Cell::Dead), (3, 2, Cell::Dead), (2, 3, Cell::Alive)]
    );
    assert_eq!(alive_cells(&f), vertical);

    let second = f.step();
    assert_eq!(
        second,
        vec![(2, 1, Cell::Dead), (1, 2, Cell::Alive), (3, 2, Cell::Alive), (2, 3, Cell::Dead)]
    );
    assert_eq!(alive_cells(&f), vec![(1, 2), (2, 2), (3, 2)]);
}

#[test]
fn blinker_oscillates_on_a_large_grid() {
    let mut f = frame_with(42, 42, &[(20, 10), (21, 10), (22, 10)]);
    let first = f.step();
    assert_eq!(
        first,
        vec![(21, 9, Cell::Alive), (20, 10, Cell::Dead), (22, 10, Cell::Dead), (21, 11, Cell::Alive)]
    );
    assert_eq!(alive_cells(&f), vec![(21, 9), (21, 10), (21, 11)]);
    let second = f.step();
    assert_eq!(second.len(), 4);
    assert_eq!(alive_cells(&f), vec![(20, 10), (21, 10), (22, 10)]);
}

#[test]
fn single_cell_on_one_by_one_dies() {
    let mut f = frame_with(1, 1, &[(0, 0)]);
    assert_eq!(f.count_neighbours(0, 0), 8);
    let diff = f.step();
    assert_eq!(diff, vec![(0, 0, Cell::Dead)]);
    assert_eq!(f.get_cell(0, 0), Cell::Dead);
    assert!(f.step().is_empty());
}

#[test]
fn lonely_cell_dies() {
    let mut f = frame_with(5, 5, &[(2, 2)]);
    let diff = f.step();
    assert_eq!(diff, vec![(2, 2, Cell::Dead)]);
    assert!(alive_cells(&f).is_empty());
}

#[test]
fn birth_needs_exactly_three() {
    let mut f = frame_with(5, 5, &[(1, 1), (3, 1), (2, 3)]);
    assert_eq!(f.count_neighbours(2, 2), 3);
    let diff = f.step();
    assert_eq!(
        diff,
        vec![(1, 1, Cell::Dead), (3, 1, Cell::Dead), (2, 2, Cell::Alive), (2, 3, Cell::Dead)]
    );
    assert_eq!(alive_cells(&f), vec![(2, 2)]);
}

#[test]
fn crowded_cell_dies() {
    let mut f = frame_with(7, 7, &[(3, 3), (2, 3), (4, 3), (3, 2), (3, 4)]);
    assert_eq!(f.count_neighbours(3, 3), 4);
    f.step();
    assert_eq!(f.get_cell(3, 3), Cell::Dead);
}

#[test]
fn step_wraps_across_the_left_edge() {
    // a vertical blinker in the last column turns into a row through column 0
    let mut f = frame_with(5, 5, &[(4, 1), (4, 2), (4, 3)]);
    let diff = f.step();
    assert_eq!(
        diff,
        vec![(4, 1, Cell::Dead), (0, 2, Cell::Alive), (3, 2, Cell::Alive), (4, 3, Cell::Dead)]
    );
    assert_eq!(alive_cells(&f), vec![(0, 2), (3, 2), (4, 2)]);
}

#[test]
fn step_wraps_across_the_top_edge() {
    let mut f = frame_with(5, 5, &[(1, 0), (2, 0), (3, 0)]);
    let diff = f.step();
    assert_eq!(
        diff,
        vec![(1, 0, Cell::Dead), (3, 0, Cell::Dead), (2, 1, Cell::Alive), (2, 4, Cell::Alive)]
    );
    assert_eq!(alive_cells(&f), vec![(2, 0), (2, 1), (2, 4)]);
}

#[test]
fn step_reads_the_grid_as_it_was() {
    // every cell of the glider is decided from the old generation
    let mut f = frame_with(6, 6, &[(1, 0), (2, 1), (0, 2), (1, 2), (2, 2)]);
    let diff = f.step();
    assert_eq!(
        diff,
        vec![(1, 0, Cell::Dead), (0, 1, Cell::Alive), (0, 2, Cell::Dead), (1, 3, Cell::Alive)]
    );
    assert_eq!(alive_cells(&f), vec![(0, 1), (2, 1), (1, 2), (2, 2), (1, 3)]);
}

#[test]
fn diff_is_exactly_what_changed() {
    let mut f = frame_with(6, 6, &[(1, 0), (2, 1), (0, 2), (1, 2), (2, 2)]);
    for _ in 0..30 {
        let before = f.clone();
        let diff = f.step();
        for &(x, y, c) in &diff {
            assert!(x < 6 && y < 6);
            assert_eq!(f.get_cell(x, y), c);
            assert_ne!(before.get_cell(x, y), c);
        }
        for y in 0..6 {
            for x in 0..6 {
                if !diff.iter().any(|e| e.0 == x && e.1 == y) {
                    assert_eq!(f.get_cell(x, y), before.get_cell(x, y));
                }
            }
        }
        for pair in diff.windows(2) {
            assert!(pair[0].1 * 6 + pair[0].0 < pair[1].1 * 6 + pair[1].0);
        }
    }
}

#[test]
fn step_agrees_with_signed_arithmetic() {
    for &(w, h) in &[(1u32, 1u32), (1, 4), (4, 1), (2, 2), (2, 5), (3, 3), (7, 5), (16, 9)] {
        let mut f = Frame::new(w, h).unwrap();
        let mut seed: u32 = 12345 + w * 31 + h;
        for y in 0..h {
            for x in 0..w {
                seed = seed.wrapping_mul(1103515245).wrapping_add(12345);
                if (seed >> 16) % 3 == 0 {
                    f.set_cell(x, y, Cell::Alive);
                }
            }
        }
        for _ in 0..12 {
            let (cells, diff) = expected_step(&f);
            let got = f.step();
            assert_eq!(got, diff);
            assert_eq!(f.cells, cells);
            assert_eq!(f.width, w);
            assert_eq!(f.height, h);
        }
    }
}

#[test]
fn full_two_by_two_grid_dies() {
    // every cell sees the other three twice and one of them twice more: 8
    let mut f = frame_with(2, 2, &[(0, 0), (1, 0), (0, 1), (1, 1)]);
    assert_eq!(f.count_neighbours(0, 0), 8);
    let diff = f.step();
    assert_eq!(
        diff,
        vec![(0, 0, Cell::Dead), (1, 0, Cell::Dead), (0, 1, Cell::Dead), (1, 1, Cell::Dead)]
    );
}
