use wator::{Board, Cell, Sampler};

#[test]
fn test_determinism_with_replay() {
    // Two engines built from the same parameters and the same recorded
    // draw sequence stay cell-for-cell identical, tick after tick.
    let vals: Vec<usize> = vec![3, 141, 59, 26, 535, 897, 93, 238, 462, 643, 383, 279];
    let mut r1 = Sampler::replay(vals.clone());
    let mut r2 = Sampler::replay(vals.clone());
    let mut b1 = Board::new_with(3, 3, 400_000, 300_000, 4, 3, 4, 2, &mut r1).unwrap();
    let mut b2 = Board::new_with(3, 3, 400_000, 300_000, 4, 3, 4, 2, &mut r2).unwrap();
    for _ in 0..6 {
        for row in 0..3 {
            for col in 0..3 {
                assert_eq!(b1.cell_at(row, col), b2.cell_at(row, col));
            }
        }
        b1.advance_with(&mut r1);
        b2.advance_with(&mut r2);
    }
}

#[test]
fn test_replay_stocking_bands() {
    // With a recorded draw per cell, stocking is exact: draws are read
    // in column-major order and reduced modulo the band scale.
    let vals: Vec<usize> = vec![0, 999_999, 600_000, 100_000];
    let mut rng = Sampler::replay(vals);
    // One column of four cells; fish band [0, 500_000), shark band
    // [500_000, 800_000).
    let board = Board::new_with(1, 4, 500_000, 300_000, 7, 2, 2, 1, &mut rng).unwrap();
    assert_eq!(Cell::Fish(0, 0), board.cell_at(0, 0));
    assert_eq!(Cell::Empty, board.cell_at(1, 0));
    assert_eq!(Cell::Shark(7, 0, 0), board.cell_at(2, 0));
    assert_eq!(Cell::Fish(0, 0), board.cell_at(3, 0));
}

#[test]
fn test_replay_isolated_fish_moves_as_drawn() {
    // An isolated fish on an otherwise empty board moves to the drawn
    // candidate: with a recording of zeros, always the first surveyed
    // neighbor.
    let vals: Vec<usize> = vec![0, 0, 0, 0, 0, 0, 0, 0];
    let mut rng = Sampler::replay(vec![999_999; 9]);
    let mut board = Board::new_with(3, 3, 0, 0, 5, 3, 3, 1, &mut rng).unwrap();
    board.set_neighborhood_mode(true);
    board.set_cell(1, 1, Cell::Fish(0, 0));
    let mut replay = Sampler::replay(vals);
    board.advance_with(&mut replay);
    // Survey order is column-major over the neighborhood; the first
    // eligible empty neighbor of (1, 1) in four-neighborhood mode is
    // (1, 0).
    assert_eq!(Cell::Fish(1, 1), board.cell_at(1, 0));
    assert_eq!(Cell::Empty, board.cell_at(1, 1));
    assert_eq!(1, board.count_fish());
}
