use life::{classify, neighbor_indices, Board, Pos, HEIGHT, WIDTH};

fn board_with(width: usize, height: usize, live: &[(usize, usize)]) -> Board {
    let mut b = Board::with_size(width, height).unwrap();
    for &(row, col) in live {
        b.set_alive(row * width + col, true);
    }
    b
}

fn live_cells(b: &Board) -> Vec<(usize, usize)> {
    let mut out = Vec::new();
    for i in 0..b.cell_count() {
        if b.is_alive(i) {
            out.push((i / b.width(), i % b.width()));
        }
    }
    out
}

#[test]
fn new_board_has_fixed_size_and_is_dead() {
    let b = Board::new();
    assert_eq!(b.width(), WIDTH);
    assert_eq!(b.height(), HEIGHT);
    assert_eq!(b.cell_count(), 470 * 100);
    assert_eq!(b.generation(), 0);
    assert!(live_cells(&b).is_empty());
}

#[test]
fn with_size_rejects_thin_grids() {
    assert!(Board::with_size(1, 5).is_none());
    assert!(Board::with_size(5, 1).is_none());
    assert!(Board::with_size(0, 0).is_none());
    assert!(Board::with_size(usize::MAX, 2).is_none());
    let b = Board::with_size(2, 2).unwrap();
    assert_eq!(b.cell_count(), 4);
}

#[test]
fn classification_of_small_grid() {
    // 4 x 3 grid
    let expected = [
        Pos::TopLeft,
        Pos::Top,
        Pos::Top,
        Pos::TopRight,
        Pos::Left,
        Pos::Interior,
        Pos::Interior,
        Pos::Right,
        Pos::BottomLeft,
        Pos::Bottom,
        Pos::Bottom,
        Pos::BottomRight,
    ];
    for (i, p) in expected.iter().enumerate() {
        assert_eq!(classify(i, 4, 3), *p, "index {}", i);
    }
    let b = Board::with_size(4, 3).unwrap();
    for (i, p) in expected.iter().enumerate() {
        assert_eq!(b.category(i), *p);
    }
}

#[test]
fn classification_of_two_by_two_is_all_corners() {
    assert_eq!(classify(0, 2, 2), Pos::TopLeft);
    assert_eq!(classify(1, 2, 2), Pos::TopRight);
    assert_eq!(classify(2, 2, 2), Pos::BottomLeft);
    assert_eq!(classify(3, 2, 2), Pos::BottomRight);
}

#[test]
fn corners_are_distinct_and_only_four() {
    for &(w, h) in &[(2usize, 2usize), (2, 5), (5, 2), (3, 3), (470, 100)] {
        let corners = [0, w - 1, w * h - w, w * h - 1];
        let mut n_corners = 0;
        for i in 0..w * h {
            let p = classify(i, w, h);
            let is_corner = matches!(
                p,
                Pos::TopLeft | Pos::TopRight | Pos::BottomLeft | Pos::BottomRight
            );
            assert_eq!(is_corner, corners.contains(&i));
            if is_corner {
                n_corners += 1;
            }
        }
        assert_eq!(n_corners, 4);
    }
}

#[test]
fn neighbor_counts_per_category() {
    let (w, h) = (WIDTH, HEIGHT);
    for i in 0..w * h {
        let p = classify(i, w, h);
        let mut nb = neighbor_indices(p, i, w, h);
        assert!(nb.iter().all(|&j| j < w * h));
        nb.sort();
        nb.dedup();
        match p {
            Pos::TopLeft | Pos::TopRight | Pos::BottomLeft | Pos::BottomRight => {
                assert_eq!(nb.len(), 3)
            }
            Pos::Top | Pos::Bottom | Pos::Left | Pos::Right => assert_eq!(nb.len(), 5),
            Pos::Interior => assert_eq!(nb.len(), 8),
        }
    }
}

#[test]
fn neighbor_offsets_follow_the_table() {
    // 5 x 4 grid
    assert_eq!(neighbor_indices(Pos::TopLeft, 0, 5, 4), vec![1, 5, 6]);
    assert_eq!(neighbor_indices(Pos::TopRight, 4, 5, 4), vec![3, 9, 8]);
    assert_eq!(neighbor_indices(Pos::BottomLeft, 15, 5, 4), vec![16, 11, 10]);
    assert_eq!(neighbor_indices(Pos::BottomRight, 19, 5, 4), vec![18, 13, 14]);
    assert_eq!(neighbor_indices(Pos::Top, 2, 5, 4), vec![1, 3, 7, 8, 6]);
    assert_eq!(neighbor_indices(Pos::Bottom, 17, 5, 4), vec![16, 18, 12, 13, 11]);
    assert_eq!(neighbor_indices(Pos::Left, 5, 5, 4), vec![0, 6, 10, 9, 1]);
    assert_eq!(neighbor_indices(Pos::Right, 9, 5, 4), vec![4, 8, 14, 13, 5]);
    assert_eq!(
        neighbor_indices(Pos::Interior, 7, 5, 4),
        vec![6, 8, 2, 12, 3, 1, 13, 11]
    );
}

#[test]
fn dead_board_stays_dead() {
    let mut b = Board::with_size(7, 5).unwrap();
    for _ in 0..10 {
        b.tick();
        assert!(live_cells(&b).is_empty());
    }
    assert_eq!(b.generation(), 10);
}

#[test]
fn isolated_cell_dies_in_every_category() {
    let (w, h) = (5usize, 4usize);
    for i in 0..w * h {
        let mut b = Board::with_size(w, h).unwrap();
        b.set_alive(i, true);
        b.tick();
        assert!(live_cells(&b).is_empty(), "cell {} ({:?})", i, classify(i, w, h));
    }
}

#[test]
fn live_neighbors_counts_through_the_class() {
    let b = board_with(5, 4, &[(0, 1), (1, 0), (1, 1)]);
    assert_eq!(b.live_neighbors(0), 3);
    assert_eq!(b.live_neighbors(6), 2);
    assert_eq!(b.live_neighbors(19), 0);
}

#[test]
fn block_is_still_life() {
    let block = vec![(2, 2), (2, 3), (3, 2), (3, 3)];
    let mut b = board_with(6, 6, &block);
    for g in 1..=5u64 {
        b.tick();
        assert_eq!(live_cells(&b), block);
        assert_eq!(b.generation(), g);
    }
    let big = vec![(50, 200), (50, 201), (51, 200), (51, 201)];
    let mut b = Board::new();
    for &(r, c) in &big {
        b.set_alive(r * WIDTH + c, true);
    }
    b.tick();
    assert_eq!(live_cells(&b), big);
}

#[test]
fn blinker_has_period_two() {
    let horizontal = vec![(2, 1), (2, 2), (2, 3)];
    let vertical = vec![(1, 2), (2, 2), (3, 2)];
    let mut b = board_with(5, 5, &horizontal);
    b.tick();
    assert_eq!(live_cells(&b), vertical);
    b.tick();
    assert_eq!(live_cells(&b), horizontal);
    b.tick();
    assert_eq!(live_cells(&b), vertical);
    assert_eq!(b.generation(), 3);
}

#[test]
fn birth_on_three_neighbors_survival_on_two() {
    // an L of three cells grows into a block
    let mut b = board_with(6, 6, &[(2, 2), (2, 3), (3, 2)]);
    b.tick();
    assert_eq!(live_cells(&b), vec![(2, 2), (2, 3), (3, 2), (3, 3)]);
    // a diagonal pair dies out: each has one neighbour
    let mut b = board_with(6, 6, &[(2, 2), (3, 3)]);
    b.tick();
    assert!(live_cells(&b).is_empty());
}

#[test]
fn update_is_simultaneous() {
    // a blinker that an in-place update would corrupt
    let mut b = board_with(5, 5, &[(1, 2), (2, 2), (3, 2)]);
    b.tick();
    assert_eq!(live_cells(&b), vec![(2, 1), (2, 2), (2, 3)]);
}

#[test]
fn generation_counts_ticks() {
    let mut b = Board::with_size(3, 3).unwrap();
    let mut last = b.generation();
    for _ in 0..20 {
        b.tick();
        assert_eq!(b.generation(), last + 1);
        last = b.generation();
    }
}

#[test]
fn fill_random_seeds_then_ticks_once() {
    let mut b = Board::with_size(4, 4).unwrap();
    let mut entropy = vec![false; 16];
    for i in [5, 6, 9, 10] {
        entropy[i] = true;
    }
    b.fill_random(&entropy);
    assert_eq!(b.generation(), 1);
    assert_eq!(live_cells(&b), vec![(1, 1), (1, 2), (2, 1), (2, 2)]);
}

#[test]
fn fill_random_with_short_entropy_leaves_the_rest_dead() {
    let mut b = Board::with_size(5, 5).unwrap();
    // a horizontal blinker in row 2 would need entries up to 13; only 12 given
    let mut entropy = vec![false; 12];
    entropy[11] = true;
    b.fill_random(&entropy);
    assert!(live_cells(&b).is_empty());
    assert_eq!(b.generation(), 1);
}

#[test]
fn render_small_board() {
    let mut b = board_with(3, 2, &[(0, 0), (1, 2)]);
    assert_eq!(b.render(), "\n█  \n  █\nGENERATION 0");
    b.tick();
    assert_eq!(b.render(), "\n   \n   \nGENERATION 1");
}

#[test]
fn render_generation_number_in_decimal() {
    let mut b = Board::with_size(2, 2).unwrap();
    for _ in 0..1234 {
        b.tick();
    }
    assert_eq!(b.render(), "\n  \n  \nGENERATION 1234");
}
