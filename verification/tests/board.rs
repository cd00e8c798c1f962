use minesofrust::minesweeper::{
    Coordinate, Error, GameBoard, PlayResult, RevealType, Square, SquareFace, SquareType,
};
use minesofrust::outcome::first_losing_square;

/// A populated board with mines at the given positions and numerals written.
fn board_with_mines(width: u32, height: u32, mines: &[(u32, u32)]) -> GameBoard {
    let mut board = GameBoard::new(width, height);
    for &(x, y) in mines {
        assert!(board.place_mine_at(&Coordinate { x, y }, &None));
    }
    board.num_mines = mines.len() as u32;
    board.is_populated = true;
    assert_eq!(board.populate_numerals(), Ok(()));
    assert!(board.is_valid());
    board
}

/// Mines among the up to eight neighbours of (x, y), counted the slow way.
fn neighbours_mined(board: &GameBoard, x: u32, y: u32) -> u32 {
    let mut count = 0;
    for dx in -1i64..=1 {
        for dy in -1i64..=1 {
            if dx == 0 && dy == 0 {
                continue;
            }
            let nx = x as i64 + dx;
            let ny = y as i64 + dy;
            if nx < 0 || ny < 0 || nx >= board.width as i64 || ny >= board.height as i64 {
                continue;
            }
            if board.get_square(nx as u32, ny as u32).unwrap().is_mine() {
                count += 1;
            }
        }
    }
    count
}

fn count_mines(board: &GameBoard) -> u32 {
    board.squares.iter().filter(|s| s.is_mine()).count() as u32
}

fn cascade_parts(result: &PlayResult) -> &Vec<PlayResult> {
    match result {
        PlayResult::CascadedReveal(parts) => parts,
        other => panic!("expected a cascade, got {:?}", other),
    }
}

#[test]
fn new_board_is_blank() {
    let board = GameBoard::new(4, 3);
    assert_eq!(board.width, 4);
    assert_eq!(board.height, 3);
    assert_eq!(board.num_mines, 0);
    assert!(!board.is_populated);
    assert_eq!(board.squares.len(), 12);
    assert!(board.is_valid());
    for sq in &board.squares {
        assert_eq!(*sq, Square::default());
    }
    assert_eq!(board.num_flags(), 0);
    assert_eq!(board.num_revealed(), 0);
    assert!(!board.is_win_configuration());
    assert!(!board.is_loss_configuration());
}

#[test]
fn empty_board_is_accepted() {
    let mut board = GameBoard::new(0, 5);
    assert!(board.is_valid());
    assert_eq!(board.squares.len(), 0);
    assert_eq!(board.get_square(0, 0), Err(Error::InvalidCoordinates));
    assert_eq!(board.populate_mines(0), Ok(()));
    assert_eq!(board.populate_mines(1), Err(Error::ExcessiveMines));
    assert!(board.is_win_configuration());
}

#[test]
fn blank_and_mine_squares() {
    let blank = Square::default();
    assert!(!blank.is_revealed && !blank.is_flagged && !blank.is_mine());
    assert_eq!(blank.numeral, 0);
    assert_eq!(blank.square_type, SquareType::Empty);
    let mine = Square::default_mine();
    assert!(mine.is_mine());
    assert!(!mine.is_revealed && !mine.is_flagged);
    assert_eq!(mine.numeral, 0);
}

#[test]
fn square_faces() {
    let mut sq = Square::default();
    assert_eq!(sq.face(), SquareFace::Hidden);
    sq.is_flagged = true;
    assert_eq!(sq.face(), SquareFace::Flag);
    sq.is_revealed = true;
    assert_eq!(sq.face(), SquareFace::Flag);
    sq.is_flagged = false;
    assert_eq!(sq.face(), SquareFace::Blank);
    sq.numeral = 3;
    assert_eq!(sq.face(), SquareFace::Numeral(3));
    sq.square_type = SquareType::Mine;
    assert_eq!(sq.face(), SquareFace::Mine);
}

#[test]
fn coordinates_compare_and_convert() {
    let c = Coordinate::from((3, 4));
    assert_eq!(c, Coordinate { x: 3, y: 4 });
    assert!(c.matches(3, 4));
    assert!(!c.matches(4, 3));
    assert_eq!(Coordinate::default(), Coordinate { x: 0, y: 0 });
    assert_eq!(RevealType::default(), RevealType::Reveal);
}

#[test]
fn near_is_the_block_around_a_position() {
    let centre = Coordinate { x: 5, y: 5 };
    for x in 0..11u32 {
        for y in 0..11u32 {
            let other = Coordinate { x, y };
            let dx = x as f64 - 5.0;
            let dy = y as f64 - 5.0;
            let expected = (dx * dx + dy * dy).sqrt() <= 1.5;
            assert_eq!(centre.near(&other), expected, "({}, {})", x, y);
            assert_eq!(other.near(&centre), expected);
        }
    }
    let corner = Coordinate { x: 0, y: 0 };
    assert!(corner.near(&Coordinate { x: 1, y: 1 }));
    assert!(!corner.near(&Coordinate { x: 2, y: 0 }));
    assert!(!Coordinate { x: u32::MAX, y: 0 }.near(&corner));
}

#[test]
fn index_and_position_agree() {
    let board = GameBoard::new(4, 3);
    for idx in 0..12u32 {
        let c = board.idx_to_xy(idx).unwrap();
        assert_eq!(c, Coordinate { x: idx % 4, y: idx / 4 });
        assert_eq!(board.get_square_by_coordinate(&c), board.get_square(c.x, c.y));
    }
    assert_eq!(board.idx_to_xy(12), Err(Error::IndexOutOfBounds));
    assert_eq!(
        board.get_square_by_coordinate(&Coordinate { x: 4, y: 0 }),
        Err(Error::InvalidCoordinates)
    );
}

#[test]
fn squares_are_stored_row_by_row() {
    let mut board = GameBoard::new(4, 3);
    board.squares[1 * 4 + 2].is_flagged = true;
    assert!(board.get_square(2, 1).unwrap().is_flagged);
    assert!(!board.get_square(1, 2).unwrap().is_flagged);
}

#[test]
fn numerals_count_neighbouring_mines() {
    let board = board_with_mines(5, 4, &[(0, 0), (1, 0), (2, 2), (4, 3), (4, 0), (3, 3)]);
    for x in 0..5u32 {
        for y in 0..4u32 {
            let sq = board.get_square(x, y).unwrap();
            let around = neighbours_mined(&board, x, y);
            assert_eq!(sq.numeral, around, "numeral at ({}, {})", x, y);
            assert_eq!(board.mined_neighbor_count(x, y), Ok(around));
        }
    }
    assert_eq!(board.get_square(1, 1).unwrap().numeral, 3);
    assert_eq!(board.get_square(3, 2).unwrap().numeral, 3);
    assert_eq!(board.get_square(0, 3).unwrap().numeral, 0);
    assert_eq!(board.get_square(0, 0).unwrap().numeral, 1);
    assert_eq!(board.get_square(2, 2).unwrap().numeral, 1);
    assert_eq!(board.get_square(4, 0).unwrap().numeral, 0);
    assert_eq!(board.mined_neighbor_count(5, 0), Err(Error::InvalidCoordinates));
}

#[test]
fn a_surrounded_square_counts_eight() {
    let mines = [(0, 0), (1, 0), (2, 0), (0, 1), (2, 1), (0, 2), (1, 2), (2, 2)];
    let board = board_with_mines(3, 3, &mines);
    assert_eq!(board.get_square(1, 1).unwrap().numeral, 8);
}

#[test]
fn flags_are_counted_among_the_neighbours() {
    let mut board = board_with_mines(3, 3, &[(0, 0)]);
    assert_eq!(board.flagged_neighbor_count(1, 1), Ok(0));
    assert_eq!(board.flag(1, 1), Ok(PlayResult::Flagged(true)));
    assert_eq!(board.flagged_neighbor_count(1, 1), Ok(0));
    assert_eq!(board.flag(0, 0), Ok(PlayResult::Flagged(true)));
    assert_eq!(board.flag(2, 2), Ok(PlayResult::Flagged(true)));
    assert_eq!(board.flagged_neighbor_count(1, 1), Ok(2));
    assert_eq!(board.flagged_neighbor_count(0, 0), Ok(1));
    assert_eq!(board.flagged_neighbor_count(2, 0), Ok(1));
    assert_eq!(board.flagged_neighbor_count(0, 1), Ok(2));
    assert_eq!(board.flagged_neighbor_count(3, 0), Err(Error::InvalidCoordinates));
    assert_eq!(board.num_flags(), 3);
}

#[test]
fn placing_a_mine_by_hand() {
    let mut board = GameBoard::new(4, 4);
    let keep_clear = Some(Coordinate { x: 1, y: 1 });
    assert!(!board.place_mine_at(&Coordinate { x: 0, y: 0 }, &keep_clear));
    assert!(!board.place_mine_at(&Coordinate { x: 2, y: 2 }, &keep_clear));
    assert!(!board.place_mine_at(&Coordinate { x: 1, y: 1 }, &keep_clear));
    assert!(!board.place_mine_at(&Coordinate { x: 4, y: 0 }, &keep_clear));
    assert_eq!(count_mines(&board), 0);
    assert!(board.place_mine_at(&Coordinate { x: 3, y: 1 }, &keep_clear));
    assert!(!board.place_mine_at(&Coordinate { x: 3, y: 1 }, &keep_clear));
    assert!(!board.place_mine_at(&Coordinate { x: 3, y: 1 }, &None));
    assert_eq!(count_mines(&board), 1);
    assert_eq!(board.get_square(3, 1), Ok(Square::default_mine()));
    assert_eq!(board.count_free(&keep_clear), 16 - 9 - 1);
    assert_eq!(board.count_free(&None), 15);
}

#[test]
fn mines_are_laid_in_the_number_asked_for() {
    for num_mines in [0u32, 1, 10, 39, 40] {
        let mut board = GameBoard::new(8, 5);
        assert_eq!(board.populate_mines(num_mines), Ok(()));
        assert!(board.is_populated);
        assert_eq!(board.num_mines, num_mines);
        assert_eq!(count_mines(&board), num_mines);
        for sq in &board.squares {
            assert!(*sq == Square::default() || *sq == Square::default_mine());
        }
    }
}

#[test]
fn mines_keep_away_from_the_first_click() {
    for (cx, cy) in [(0u32, 0u32), (3, 2), (7, 4), (0, 4)] {
        let keep_clear = Coordinate { x: cx, y: cy };
        let mut zone = 0;
        for x in 0..8u32 {
            for y in 0..5u32 {
                if keep_clear.near(&Coordinate { x, y }) {
                    zone += 1;
                }
            }
        }
        let room = 40 - zone;
        for num_mines in [1u32, 12, room] {
            let mut board = GameBoard::new(8, 5);
            assert_eq!(board.populate_mines_around(num_mines, Some(keep_clear)), Ok(()));
            assert_eq!(count_mines(&board), num_mines);
            assert_eq!(board.num_mines, num_mines);
            assert!(board.is_populated);
            for x in 0..8u32 {
                for y in 0..5u32 {
                    let d = ((x as f64 - cx as f64).powi(2) + (y as f64 - cy as f64).powi(2)).sqrt();
                    if d <= 1.5 {
                        assert!(!board.get_square(x, y).unwrap().is_mine());
                    }
                }
            }
        }
        let mut board = GameBoard::new(8, 5);
        assert_eq!(
            board.populate_mines_around(room + 1, Some(keep_clear)),
            Err(Error::ExcessiveMines)
        );
        assert_eq!(count_mines(&board), 0);
        assert!(!board.is_populated);
        assert_eq!(board.num_mines, 0);
    }
}

#[test]
fn too_many_mines_are_refused() {
    let mut board = GameBoard::new(3, 3);
    assert_eq!(board.populate_mines(10), Err(Error::ExcessiveMines));
    assert_eq!(board.populate_mines_around(10, None), Err(Error::ExcessiveMines));
    assert!(!board.is_populated);
    assert_eq!(GameBoard::new_populated(3, 3, 10).err(), Some(Error::ExcessiveMines));
    assert_eq!(
        GameBoard::new_populated_around(3, 3, 10, Coordinate { x: 1, y: 1 }).err(),
        Some(Error::ExcessiveMines)
    );
    assert_eq!(
        GameBoard::new_populated_around(3, 3, 1, Coordinate { x: 1, y: 1 }).err(),
        Some(Error::ExcessiveMines)
    );
    assert_eq!(board.populate_mines(9), Ok(()));
    assert_eq!(count_mines(&board), 9);
    assert_eq!(board.populate_mines(1), Err(Error::ExcessiveMines));
    assert_eq!(count_mines(&board), 9);
}

#[test]
fn a_second_laying_adds_to_the_first() {
    let mut board = GameBoard::new(4, 4);
    assert_eq!(board.populate_mines(5), Ok(()));
    let first: Vec<bool> = board.squares.iter().map(|s| s.is_mine()).collect();
    assert_eq!(board.populate_mines(7), Ok(()));
    assert_eq!(count_mines(&board), 12);
    assert_eq!(board.num_mines, 7);
    for (i, sq) in board.squares.iter().enumerate() {
        if first[i] {
            assert!(sq.is_mine());
        }
    }
}

#[test]
fn populated_boards_are_ready_to_play() {
    let board = GameBoard::new_populated(9, 9, 10).unwrap();
    assert_eq!((board.width, board.height, board.num_mines), (9, 9, 10));
    assert!(board.is_populated);
    assert_eq!(count_mines(&board), 10);
    for x in 0..9u32 {
        for y in 0..9u32 {
            let sq = board.get_square(x, y).unwrap();
            assert!(!sq.is_revealed && !sq.is_flagged);
            if !sq.is_mine() {
                assert_eq!(sq.numeral, neighbours_mined(&board, x, y));
            }
        }
    }
    let click = Coordinate { x: 4, y: 4 };
    let mut board = GameBoard::new_populated_around(9, 9, 10, click.clone()).unwrap();
    assert_eq!(count_mines(&board), 10);
    assert_eq!(board.get_square(4, 4).unwrap().numeral, 0);
    let result = board.reveal_square(4, 4).unwrap();
    assert_eq!(cascade_parts(&result).len(), 9);
    assert_eq!(first_losing_square(&result), None);
    assert!(board.num_revealed() >= 9);
    assert!(!board.is_loss_configuration());
}

#[test]
fn reset_blanks_the_board() {
    let mut board = board_with_mines(3, 3, &[(1, 1)]);
    board.reveal_square(0, 0).unwrap();
    board.reset();
    assert_eq!(board.squares.len(), 9);
    for sq in &board.squares {
        assert_eq!(*sq, Square::default());
    }
    assert_eq!(board.num_mines, 1);
    assert!(board.is_populated);
}

#[test]
fn reset_existing_keeps_the_mines() {
    let mut board = board_with_mines(4, 4, &[(3, 3), (0, 3)]);
    let before = board.clone();
    board.reveal_square(0, 0).unwrap();
    board.flag(3, 3).unwrap();
    assert!(board.num_revealed() > 0);
    board.reset_existing();
    assert_eq!(board.squares, before.squares);
    assert_eq!(board.num_mines, 2);
    assert!(board.is_populated);
}

#[test]
fn flagging_twice_restores_the_square() {
    let mut board = board_with_mines(3, 3, &[(2, 2)]);
    let before = board.squares.clone();
    assert_eq!(board.flag(1, 0), Ok(PlayResult::Flagged(true)));
    for (i, sq) in board.squares.iter().enumerate() {
        if i == 1 {
            assert_eq!(*sq, Square { is_flagged: true, ..before[i] });
        } else {
            assert_eq!(*sq, before[i]);
        }
    }
    assert_eq!(board.flag(1, 0), Ok(PlayResult::Flagged(false)));
    assert_eq!(board.squares, before);
    assert_eq!(board.flag(1, 0), Ok(PlayResult::Flagged(true)));
    assert_eq!(board.flag(1, 0), Ok(PlayResult::Flagged(false)));
    assert_eq!(board.squares, before);
}

#[test]
fn a_revealed_square_takes_no_flag() {
    let mut board = board_with_mines(3, 3, &[(2, 2)]);
    assert_eq!(
        board.reveal_square(1, 1),
        Ok(PlayResult::Revealed(Coordinate { x: 1, y: 1 }))
    );
    let before = board.squares.clone();
    assert_eq!(board.flag(1, 1), Ok(PlayResult::NoChange));
    assert_eq!(board.squares, before);
    assert_eq!(board.reveal_square(1, 1), Ok(PlayResult::NoChange));
    assert_eq!(board.squares, before);
}

#[test]
fn a_flagged_square_is_not_revealed() {
    let mut board = board_with_mines(3, 3, &[(2, 2)]);
    board.flag(0, 0).unwrap();
    assert_eq!(board.reveal_square(0, 0), Ok(PlayResult::NoChange));
    assert!(!board.get_square(0, 0).unwrap().is_revealed);
    assert_eq!(board.cascade_from(0, 0), Err(Error::InvalidCascade));
}

#[test]
fn a_cascade_stops_at_flags() {
    let mut board = board_with_mines(5, 1, &[]);
    board.flag(2, 0).unwrap();
    let result = board.reveal_square(0, 0).unwrap();
    assert_eq!(cascade_parts(&result).len(), 9);
    let shown: Vec<bool> = board.squares.iter().map(|s| s.is_revealed).collect();
    assert_eq!(shown, vec![true, true, false, false, false]);
    assert!(!board.is_win_configuration());
}

#[test]
fn a_cascade_needs_a_safe_zero_square() {
    let mut board = board_with_mines(3, 3, &[(2, 2)]);
    let before = board.squares.clone();
    assert_eq!(board.cascade_from(1, 1), Err(Error::InvalidCascade));
    assert_eq!(board.cascade_from(2, 2), Err(Error::InvalidCascade));
    assert_eq!(board.cascade_from(3, 3), Err(Error::InvalidCoordinates));
    assert_eq!(board.squares, before);
    let result = board.cascade_from(0, 0).unwrap();
    assert_eq!(cascade_parts(&result).len(), 9);
    assert_eq!(board.num_revealed(), 8);
}

#[test]
fn a_board_without_numerals_cascades_into_mines() {
    let mut board = GameBoard::new(3, 1);
    assert!(board.place_mine_at(&Coordinate { x: 2, y: 0 }, &None));
    let result = board.reveal_square(0, 0).unwrap();
    assert_eq!(first_losing_square(&result), Some(Coordinate { x: 2, y: 0 }));
    assert!(board.is_loss_configuration());
    assert_eq!(board.num_revealed(), 3);
}

#[test]
fn chording_needs_matching_flags() {
    let mut board = board_with_mines(3, 3, &[(0, 0)]);
    assert_eq!(board.can_chord_square(1, 1), Ok(false));
    assert_eq!(board.can_chord_square(2, 2), Ok(true));
    assert_eq!(
        board.reveal_square(1, 1),
        Ok(PlayResult::Revealed(Coordinate { x: 1, y: 1 }))
    );
    let before = board.squares.clone();
    assert_eq!(board.chord(1, 1), Ok(PlayResult::NoChange));
    assert_eq!(board.squares, before);

    board.flag(0, 0).unwrap();
    board.flag(2, 2).unwrap();
    assert_eq!(board.can_chord_square(1, 1), Ok(false));
    let before = board.squares.clone();
    assert_eq!(board.chord(1, 1), Ok(PlayResult::NoChange));
    assert_eq!(board.squares, before);

    board.flag(2, 2).unwrap();
    assert_eq!(board.can_chord_square(1, 1), Ok(true));
    let result = board.chord(1, 1).unwrap();
    let parts = cascade_parts(&result);
    assert_eq!(parts.len(), 9);
    assert_eq!(parts[0], PlayResult::NoChange);
    assert_eq!(parts[1], PlayResult::Revealed(Coordinate { x: 1, y: 0 }));
    assert_eq!(cascade_parts(&parts[2]).len(), 9);
    assert_eq!(parts[3], PlayResult::NoChange);
    assert_eq!(parts[4], PlayResult::NoChange);
    assert_eq!(first_losing_square(&result), None);
    assert_eq!(board.num_revealed(), 8);
    assert!(board.is_win_configuration());
    assert!(!board.is_loss_configuration());
}

#[test]
fn a_chord_reads_the_block_row_by_row() {
    let mut board = board_with_mines(2, 2, &[(0, 0)]);
    board.reveal_square(1, 1).unwrap();
    board.flag(0, 0).unwrap();
    let result = board.chord(1, 1).unwrap();
    assert_eq!(
        result,
        PlayResult::CascadedReveal(vec![
            PlayResult::NoChange,
            PlayResult::Revealed(Coordinate { x: 1, y: 0 }),
            PlayResult::NoChange,
            PlayResult::Revealed(Coordinate { x: 0, y: 1 }),
            PlayResult::NoChange,
            PlayResult::NoChange,
            PlayResult::NoChange,
            PlayResult::NoChange,
            PlayResult::NoChange,
        ])
    );
}

#[test]
fn the_flag_on_the_square_itself_does_not_count() {
    let mut board = board_with_mines(3, 3, &[(2, 2)]);
    board.flag(1, 1).unwrap();
    assert_eq!(board.get_square(1, 1).unwrap().numeral, 1);
    assert_eq!(board.can_chord_square(1, 1), Ok(false));
    let before = board.squares.clone();
    assert_eq!(board.chord(1, 1), Ok(PlayResult::NoChange));
    assert_eq!(board.squares, before);
    assert!(!board.is_loss_configuration());

    board.flag(2, 2).unwrap();
    assert_eq!(board.can_chord_square(1, 1), Ok(true));
    let result = board.chord(1, 1).unwrap();
    assert_eq!(cascade_parts(&result).len(), 9);
    assert_eq!(first_losing_square(&result), None);
    assert!(!board.get_square(1, 1).unwrap().is_revealed);
    assert!(!board.get_square(2, 2).unwrap().is_revealed);
    assert_eq!(board.num_revealed(), 7);
}

#[test]
fn more_flags_than_the_numeral_refuse_the_chord() {
    let mut board = board_with_mines(3, 3, &[(2, 2)]);
    board.reveal_square(1, 1).unwrap();
    board.flag(2, 2).unwrap();
    board.flag(0, 2).unwrap();
    assert_eq!(board.flagged_neighbor_count(1, 1), Ok(2));
    assert_eq!(board.can_chord_square(1, 1), Ok(false));
    let before = board.squares.clone();
    assert_eq!(board.chord(1, 1), Ok(PlayResult::NoChange));
    assert_eq!(board.squares, before);
}

#[test]
fn chording_on_a_wrong_flag_sets_the_mine_off() {
    let mut board = board_with_mines(3, 3, &[(0, 0)]);
    board.reveal_square(1, 1).unwrap();
    board.flag(2, 2).unwrap();
    let result = board.chord(1, 1).unwrap();
    let parts = cascade_parts(&result);
    assert_eq!(parts.len(), 9);
    assert_eq!(parts[0], PlayResult::Explosion(Coordinate { x: 0, y: 0 }));
    assert_eq!(first_losing_square(&result), Some(Coordinate { x: 0, y: 0 }));
    assert!(board.is_loss_configuration());
    assert!(!board.get_square(2, 2).unwrap().is_revealed);
}

#[test]
fn a_chord_can_win_and_lose_at_once() {
    let mut board = board_with_mines(2, 1, &[(0, 0)]);
    assert_eq!(board.get_square(0, 0).unwrap().numeral, 0);
    let result = board.chord(0, 0).unwrap();
    assert_eq!(cascade_parts(&result).len(), 9);
    assert_eq!(first_losing_square(&result), Some(Coordinate { x: 0, y: 0 }));
    assert!(board.is_win_configuration());
    assert!(board.is_loss_configuration());
}

#[test]
fn reveal_and_chord_in_one_move() {
    let mut board = board_with_mines(3, 3, &[(0, 0)]);
    let revealed = PlayResult::Revealed(Coordinate { x: 1, y: 1 });
    assert_eq!(
        board.revealchord(1, 1),
        Ok(PlayResult::CascadedReveal(vec![PlayResult::Revealed(Coordinate { x: 1, y: 1 })]))
    );
    assert_eq!(board.num_revealed(), 1);
    assert_eq!(
        board.revealchord(1, 1),
        Ok(PlayResult::CascadedReveal(vec![PlayResult::NoChange]))
    );

    let mut board = board_with_mines(3, 3, &[(0, 0)]);
    board.flag(0, 0).unwrap();
    let result = board.revealchord(1, 1).unwrap();
    let parts = cascade_parts(&result);
    assert_eq!(parts.len(), 10);
    assert_eq!(parts[9], revealed);
    assert_eq!(parts[4], PlayResult::NoChange);
    assert!(board.is_win_configuration());
}

#[test]
fn play_dispatches_on_the_kind_of_move() {
    let mut board = board_with_mines(3, 3, &[(0, 0)]);
    assert_eq!(board.play(0, 0, RevealType::Flag), Ok(PlayResult::Flagged(true)));
    assert_eq!(
        board.play(1, 1, RevealType::Reveal),
        Ok(PlayResult::Revealed(Coordinate { x: 1, y: 1 }))
    );
    let chorded = board.play(1, 1, RevealType::Chord).unwrap();
    assert_eq!(cascade_parts(&chorded).len(), 9);
    let both = board.play(2, 2, RevealType::RevealChord).unwrap();
    assert_eq!(cascade_parts(&both).len(), 10);
    assert_eq!(board.play(3, 0, RevealType::Flag), Err(Error::InvalidCoordinates));
    assert_eq!(board.play(0, 3, RevealType::RevealChord), Err(Error::InvalidCoordinates));
}

#[test]
fn winning_and_losing() {
    let mut board = board_with_mines(2, 2, &[(0, 0)]);
    assert!(!board.is_win_configuration());
    board.reveal_square(1, 0).unwrap();
    board.reveal_square(0, 1).unwrap();
    assert!(!board.is_win_configuration());
    board.reveal_square(1, 1).unwrap();
    assert!(board.is_win_configuration());
    assert!(!board.is_loss_configuration());
    assert_eq!(board.num_flags(), 0);
    board.flag_all_mines();
    assert_eq!(board.num_flags(), 1);
    assert!(board.get_square(0, 0).unwrap().is_flagged);

    let mut board = board_with_mines(2, 2, &[(0, 0)]);
    board.flag(1, 1).unwrap();
    assert_eq!(
        board.reveal_square(0, 0),
        Ok(PlayResult::Explosion(Coordinate { x: 0, y: 0 }))
    );
    assert!(board.is_loss_configuration());
    assert!(!board.is_win_configuration());
    assert_eq!(
        board.reveal_square(0, 0),
        Ok(PlayResult::Explosion(Coordinate { x: 0, y: 0 }))
    );
    board.flag_all_mines();
    assert!(board.get_square(0, 0).unwrap().is_flagged);
    assert!(!board.get_square(1, 1).unwrap().is_flagged);
    assert_eq!(board.num_flags(), 1);
}

#[test]
fn a_spread_leaves_no_zero_square_with_a_hidden_neighbour() {
    for _ in 0..20 {
        let click = Coordinate { x: 7, y: 7 };
        let mut board = GameBoard::new_populated_around(16, 16, 40, click).unwrap();
        let before = board.clone();
        let result = board.reveal_square(7, 7).unwrap();
        assert_eq!(first_losing_square(&result), None);
        assert_eq!(count_mines(&board), 40);
        for x in 0..16u32 {
            for y in 0..16u32 {
                let was = before.get_square(x, y).unwrap();
                let sq = board.get_square(x, y).unwrap();
                assert_eq!(sq, Square { is_revealed: sq.is_revealed, ..was });
                assert!(!(sq.is_mine() && sq.is_revealed));
                if sq.is_revealed && sq.numeral == 0 {
                    for dx in -1i64..=1 {
                        for dy in -1i64..=1 {
                            let nx = x as i64 + dx;
                            let ny = y as i64 + dy;
                            if nx < 0 || ny < 0 || nx >= 16 || ny >= 16 {
                                continue;
                            }
                            assert!(board.get_square(nx as u32, ny as u32).unwrap().is_revealed);
                        }
                    }
                }
            }
        }
    }
}

#[test]
fn free_squares_are_found_by_rank() {
    let mut board = GameBoard::new(4, 3);
    assert!(board.place_mine_at(&Coordinate { x: 1, y: 0 }, &None));
    assert!(board.place_mine_at(&Coordinate { x: 0, y: 2 }, &None));
    assert_eq!(board.count_free(&None), 10);
    let free: Vec<u32> = (0..10).map(|k| board.nth_free(&None, k)).collect();
    assert_eq!(free, vec![0, 2, 3, 4, 5, 6, 7, 9, 10, 11]);

    let keep_clear = Some(Coordinate { x: 3, y: 2 });
    assert_eq!(board.count_free(&keep_clear), 6);
    let free: Vec<u32> = (0..6).map(|k| board.nth_free(&keep_clear, k)).collect();
    assert_eq!(free, vec![0, 2, 3, 4, 5, 9]);
    for idx in free {
        let c = board.idx_to_xy(idx).unwrap();
        assert!(!board.get_square(c.x, c.y).unwrap().is_mine());
        assert!(!Coordinate { x: 3, y: 2 }.near(&c));
    }
}

#[test]
fn a_malformed_board_is_recognised() {
    let mut board = GameBoard::new(3, 3);
    assert!(board.is_valid());
    let copy = board.clone();
    assert_eq!(copy.squares, board.squares);
    assert_eq!((copy.width, copy.height, copy.num_mines, copy.is_populated), (3, 3, 0, false));
    board.squares.pop();
    assert!(!board.is_valid());
    assert!(copy.is_valid());
    board.squares.push(Square::default());
    board.width = 4;
    assert!(!board.is_valid());
}

/// The squares that a reveal at (x, y) must open on `board`: those reached
/// from it over hidden zero squares without mine or flag, and their
/// unflagged neighbours.
fn reach_of(board: &GameBoard, x: u32, y: u32) -> Vec<bool> {
    let w = board.width as i64;
    let h = board.height as i64;
    let open = |sq: &Square| !sq.is_mine() && !sq.is_flagged && !sq.is_revealed && sq.numeral == 0;
    let mut in_zone = vec![false; (w * h) as usize];
    let mut in_reach = vec![false; (w * h) as usize];
    let mut work = vec![(x as i64, y as i64)];
    in_zone[(y as i64 * w + x as i64) as usize] = true;
    while let Some((cx, cy)) = work.pop() {
        for dy in -1i64..=1 {
            for dx in -1i64..=1 {
                let (nx, ny) = (cx + dx, cy + dy);
                if nx < 0 || ny < 0 || nx >= w || ny >= h {
                    continue;
                }
                let i = (ny * w + nx) as usize;
                let sq = &board.squares[i];
                if !sq.is_flagged {
                    in_reach[i] = true;
                }
                if open(sq) && !in_zone[i] {
                    in_zone[i] = true;
                    work.push((nx, ny));
                }
            }
        }
    }
    in_reach
}

#[test]
fn a_reveal_opens_exactly_its_reach() {
    for round in 0..30u32 {
        let click = Coordinate { x: round % 12, y: round % 9 };
        let mut board = GameBoard::new_populated_around(12, 9, 14, click).unwrap();
        for i in 0..5u32 {
            board.flag((round + 3 * i) % 12, (round + 2 * i) % 9).unwrap();
        }
        if board.get_square(click.x, click.y).unwrap().is_flagged {
            board.flag(click.x, click.y).unwrap();
        }
        let before = board.clone();
        let expected = reach_of(&before, click.x, click.y);
        board.reveal_square(click.x, click.y).unwrap();
        for (i, sq) in board.squares.iter().enumerate() {
            assert_eq!(
                sq.is_revealed,
                before.squares[i].is_revealed || expected[i],
                "square {} in round {}",
                i,
                round
            );
            assert_eq!(*sq, Square { is_revealed: sq.is_revealed, ..before.squares[i] });
        }
    }
}
