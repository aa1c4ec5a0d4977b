use wator::{Board, Cell, Sampler, WatorError};

#[test]
pub fn test_board_creation() {
    let board = Board::new(10, 10, 500_000, 500_000, 5, 3, 5, 3).unwrap();
    for row in 0..10 {
        for col in 0..10 {
            assert!(board.cell_at(row, col) != Cell::Empty);
        }
    }
    let board = Board::new(10, 10, 0, 1_000_000, 5, 3, 5, 3).unwrap();
    for row in 0..10 {
        for col in 0..10 {
            assert!(board.is_shark(row, col));
        }
    }

    let board = Board::new(10, 10, 1_000_000, 0, 5, 3, 5, 3).unwrap();
    for row in 0..10 {
        for col in 0..10 {
            assert!(board.is_fish(row, col));
        }
    }

    let board = Board::new(10, 10, 0, 0, 5, 3, 5, 3).unwrap();
    for row in 0..10 {
        for col in 0..10 {
            assert!(board.cell_at(row, col) == Cell::Empty);
        }
    }
}

#[test]
fn test_fish() {
    let mut board = Board::new(2, 2, 0, 0, 5, 2, 5, 5).unwrap();
    board.set_cell(0, 0, Cell::Fish(0, 0));
    assert!(board.is_fish(0, 0));
    assert_eq!(1, board.count_fish());
    board.advance();
    assert!(!board.is_fish(0, 0));
    assert_eq!(1, board.count_fish());
    board.advance();
    assert_eq!(2, board.count_fish());
    board.advance();
    board.advance();
    assert_eq!(4, board.count_fish());
    board.advance();
    board.advance();
    assert_eq!(4, board.count_fish());
    board.advance();
    board.advance();
    assert_eq!(4, board.count_fish());
}

#[test]
fn test_sharks() {
    let mut board = Board::new(2, 2, 0, 0, 2, 2, 2, 2).unwrap();
    board.set_cell(0, 0, Cell::Fish(2, 0));
    board.set_cell(0, 1, Cell::Shark(2, 2, 0));
    board.advance();
    // Shark should eat the fish
    assert_eq!(0, board.count_fish());
    assert_eq!(1, board.count_sharks());

    // The rest of the scenario counts on newborn sharks starting their
    // reproduction cycle at phase zero; a recording of zeros pins every
    // draw (moves take the first surveyed candidate, newborn phases are
    // zero) so the expected counts are exact.
    let mut draws = Sampler::replay(vec![0; 64]);
    let mut board = Board::new(2, 2, 0, 0, 2, 2, 3, 2).unwrap();
    board.set_cell(0, 0, Cell::Fish(3, 0));
    board.set_cell(1, 0, Cell::Fish(3, 0));
    board.set_cell(0, 1, Cell::Shark(2, 0, 0));
    board.advance_with(&mut draws);
    // One fish down
    assert_eq!(1, board.count_fish());
    assert_eq!(1, board.count_sharks());
    board.advance_with(&mut draws);
    // ...and the second
    assert_eq!(0, board.count_fish());
    assert_eq!(1, board.count_sharks());
    board.advance_with(&mut draws);
    // New baby shark!
    assert_eq!(2, board.count_sharks());
    board.advance_with(&mut draws);
    assert_eq!(2, board.count_sharks());
    // Four more and daddy shark dies
    board.advance_with(&mut draws);
    // Baby shark dies
    assert_eq!(1, board.count_sharks());
    board.advance_with(&mut draws);
    board.advance_with(&mut draws);
    // Should be barely alive
    assert_eq!(2, board.count_sharks());
    board.advance_with(&mut draws);
    // That should have done him in
    assert_eq!(0, board.count_sharks());
}

#[test]
fn test_invalid_configuration() {
    assert!(matches!(
        Board::new(2, 2, 0, 0, 5, 0, 5, 5),
        Err(WatorError::InvalidConfiguration)
    ));
    assert!(matches!(
        Board::new(2, 2, 0, 0, 5, 5, 0, 5),
        Err(WatorError::InvalidConfiguration)
    ));
    assert!(matches!(
        Board::new(0, 2, 0, 0, 5, 5, 5, 5),
        Err(WatorError::InvalidConfiguration)
    ));
    assert!(matches!(
        Board::new(2, 0, 0, 0, 5, 5, 5, 5),
        Err(WatorError::InvalidConfiguration)
    ));
    assert!(matches!(
        Board::new(2, 2, 0, 0, 0, 5, 5, 5),
        Err(WatorError::InvalidConfiguration)
    ));
    assert!(Board::new(2, 2, 0, 0, 1, 1, 1, 0).is_ok());
}

#[test]
fn test_starvation() {
    // Four sharks at energy 1 on a full 2x2 board: none can feed or
    // move, so every one of them starves on the very next tick.
    let mut board = Board::new(2, 2, 0, 0, 1, 2, 3, 0).unwrap();
    board.set_cell(0, 0, Cell::Shark(1, 0, 0));
    board.set_cell(0, 1, Cell::Shark(1, 0, 0));
    board.set_cell(1, 0, Cell::Shark(1, 0, 0));
    board.set_cell(1, 1, Cell::Shark(1, 0, 0));
    assert_eq!(4, board.count_sharks());
    board.advance();
    assert_eq!(0, board.count_sharks());
    for row in 0..2 {
        for col in 0..2 {
            assert_eq!(Cell::Empty, board.cell_at(row, col));
        }
    }
}

#[test]
fn test_population_partition() {
    // Fish, sharks and empty cells always account for every coordinate.
    let mut board = Board::new(4, 4, 300_000, 300_000, 3, 3, 4, 2).unwrap();
    for _ in 0..6 {
        let mut empties: usize = 0;
        for row in 0..4 {
            for col in 0..4 {
                if board.cell_at(row, col) == Cell::Empty {
                    empties += 1;
                }
            }
        }
        assert_eq!(16, board.count_fish() + board.count_sharks() + empties);
        board.advance();
    }
}

#[test]
fn test_stamps_and_counters_after_advance() {
    // Seeded organisms may carry out-of-range reproduction counters;
    // one generation folds every counter back into range and stamps
    // every organism with the new tick.
    // Four-neighborhood mode and a pinned draw sequence keep the two
    // organisms apart: the fish takes its third surveyed destination,
    // (1, 0), which the shark at (2, 2) cannot reach.
    let mut board = Board::new(3, 3, 0, 0, 4, 3, 5, 1).unwrap();
    board.set_neighborhood_mode(true);
    board.set_cell(0, 0, Cell::Fish(7, 0));
    board.set_cell(2, 2, Cell::Shark(4, 8, 0));
    let mut draws = Sampler::replay(vec![2, 0]);
    board.advance_with(&mut draws);
    let mut organisms: usize = 0;
    for row in 0..3 {
        for col in 0..3 {
            match board.cell_at(row, col) {
                Cell::Fish(r, a) => {
                    assert!(r < 3);
                    assert_eq!(1, a);
                    organisms += 1;
                }
                Cell::Shark(e, r, a) => {
                    assert!(e >= 1);
                    assert!(r < 5);
                    assert_eq!(1, a);
                    organisms += 1;
                }
                Cell::Empty => {}
            }
        }
    }
    assert_eq!(2, organisms);
}

#[test]
fn test_neighborhood_modes() {
    // In four-neighborhood mode a diagonal fish is out of reach: a
    // shark at energy 1 finds only empty destinations and dies en
    // route. In eight-neighborhood mode the same shark feeds and
    // survives.
    let mut four = Board::new(3, 3, 0, 0, 5, 4, 4, 2).unwrap();
    four.set_neighborhood_mode(true);
    four.set_cell(0, 0, Cell::Shark(1, 0, 0));
    four.set_cell(1, 1, Cell::Fish(0, 0));
    four.advance();
    assert_eq!(0, four.count_sharks());
    assert_eq!(1, four.count_fish());

    let mut eight = Board::new(3, 3, 0, 0, 5, 4, 4, 2).unwrap();
    eight.set_cell(0, 0, Cell::Shark(1, 0, 0));
    eight.set_cell(1, 1, Cell::Fish(0, 0));
    eight.advance();
    assert_eq!(1, eight.count_sharks());
    assert_eq!(0, eight.count_fish());
}

#[test]
fn test_single_cell_grid() {
    // On a one-cell torus every survey slot wraps back to the origin,
    // so nothing ever moves. A crowded fish advances its counter but
    // never spawns: reproduction happens only on a successful move.
    let mut board = Board::new(1, 1, 0, 0, 3, 2, 2, 1).unwrap();
    board.set_cell(0, 0, Cell::Fish(1, 0));
    board.advance();
    assert!(board.is_fish(0, 0));
    assert_eq!(1, board.count_fish());
    board.advance();
    board.advance();
    assert_eq!(1, board.count_fish());

    // A cornered shark burns energy in place and starves when it would
    // hit zero.
    let mut board = Board::new(1, 1, 0, 0, 3, 2, 2, 1).unwrap();
    board.set_cell(0, 0, Cell::Shark(2, 0, 0));
    board.advance();
    assert_eq!(1, board.count_sharks());
    board.advance();
    assert_eq!(0, board.count_sharks());
}

#[test]
fn test_feeding_energy_boost() {
    // Feeding adds exactly the configured boost; the move stamps the
    // shark and advances its reproduction counter.
    let mut board = Board::new(2, 2, 0, 0, 9, 9, 9, 5).unwrap();
    board.set_cell(0, 0, Cell::Shark(3, 0, 0));
    board.set_cell(0, 1, Cell::Fish(0, 0));
    board.advance();
    assert_eq!(Cell::Shark(8, 1, 1), board.cell_at(0, 1));
    assert_eq!(Cell::Empty, board.cell_at(0, 0));
    assert_eq!(0, board.count_fish());
    assert_eq!(1, board.count_sharks());
}
