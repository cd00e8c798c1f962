use minesofrust::minesweeper::{Coordinate, Error, GameBoard, PlayResult, Square};

fn nine(parts: [Option<PlayResult>; 9]) -> PlayResult {
    let mut v = Vec::new();
    for p in parts {
        v.push(p.unwrap_or(PlayResult::NoChange));
    }
    PlayResult::CascadedReveal(v)
}

fn corner_mine_board() -> GameBoard {
    let mut board = GameBoard::new(3, 3);
    assert!(!board.is_populated);
    let keep_clear = Some(Coordinate { x: 0, y: 0 });
    assert!(board.place_mine_at(&Coordinate { x: 2, y: 2 }, &keep_clear));
    board.num_mines = 1;
    board.is_populated = true;
    assert_eq!(board.populate_numerals(), Ok(()));
    board
}

#[test]
fn corner_mine_numerals() {
    let board = corner_mine_board();
    for x in 0..3u32 {
        for y in 0..3u32 {
            let sq = board.get_square(x, y).unwrap();
            if (x, y) == (2, 2) {
                assert!(sq.is_mine());
            } else {
                assert!(!sq.is_mine());
                let expected = if x >= 1 && y >= 1 { 1 } else { 0 };
                assert_eq!(sq.numeral, expected, "numeral at ({}, {})", x, y);
            }
        }
    }
}

#[test]
fn corner_mine_first_reveal_cascades() {
    let mut board = corner_mine_board();
    let result = board.reveal_square(0, 0).unwrap();

    let top_right = nine([
        None,
        None,
        None,
        None,
        None,
        None,
        Some(PlayResult::Revealed(Coordinate { x: 1, y: 1 })),
        Some(PlayResult::Revealed(Coordinate { x: 2, y: 1 })),
        None,
    ]);
    let bottom_left = nine([
        None,
        None,
        None,
        None,
        None,
        Some(PlayResult::Revealed(Coordinate { x: 1, y: 2 })),
        None,
        None,
        None,
    ]);
    let left_middle = nine([None, None, None, None, None, None, None, Some(bottom_left), None]);
    let top_middle =
        nine([None, None, None, None, None, Some(top_right), Some(left_middle), None, None]);
    let expected = nine([None, None, None, None, None, Some(top_middle), None, None, None]);
    assert_eq!(result, expected);

    for x in 0..3u32 {
        for y in 0..3u32 {
            let sq = board.get_square(x, y).unwrap();
            assert_eq!(sq.is_revealed, (x, y) != (2, 2));
            assert!(!sq.is_flagged);
        }
    }
    assert_eq!(board.num_revealed(), 8);
    assert!(board.is_win_configuration());
    assert!(!board.is_loss_configuration());
}

#[test]
fn flagged_mine_is_protected() {
    let mut board = corner_mine_board();
    assert_eq!(board.flag(2, 2), Ok(PlayResult::Flagged(true)));
    assert_eq!(board.reveal_square(2, 2), Ok(PlayResult::NoChange));
    assert!(!board.get_square(2, 2).unwrap().is_revealed);
    assert!(!board.is_loss_configuration());
    assert_eq!(board.flag(2, 2), Ok(PlayResult::Flagged(false)));
    assert_eq!(
        board.reveal_square(2, 2),
        Ok(PlayResult::Explosion(Coordinate { x: 2, y: 2 }))
    );
    assert!(board.get_square(2, 2).unwrap().is_revealed);
    assert!(board.is_loss_configuration());
}

#[test]
fn out_of_range_is_refused() {
    let mut board = corner_mine_board();
    assert_eq!(board.get_square(3, 0), Err(Error::InvalidCoordinates));
    assert_eq!(board.reveal_square(0, 3), Err(Error::InvalidCoordinates));
    assert_eq!(board.flag(7, 7), Err(Error::InvalidCoordinates));
    assert_eq!(board.chord(3, 3), Err(Error::InvalidCoordinates));
    assert_eq!(board.revealchord(3, 1), Err(Error::InvalidCoordinates));
    assert_eq!(board.cascade_from(5, 0), Err(Error::InvalidCoordinates));
    assert_eq!(board.can_chord_square(0, 9), Err(Error::InvalidCoordinates));
    assert_eq!(board.idx_to_xy(9), Err(Error::IndexOutOfBounds));
    assert_eq!(board.idx_to_xy(5), Ok(Coordinate { x: 2, y: 1 }));
    assert_eq!(board.get_square(0, 0), Ok(Square::default()));
}
