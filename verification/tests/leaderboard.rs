use minesofrust::enums::GameDifficulty;
use minesofrust::leader::{rank_of, Entry, LeaderBoard, LeaderBoards, MAX_ENTRIES_PER_BOARD};
use minesofrust::clock::Stamp;

fn entry(name: &str, seconds: f64) -> Entry {
    Entry {
        player_name: name.to_string(),
        date: Stamp { millis: 0, utc_offset: 0 },
        time: seconds.to_bits(),
    }
}

#[test]
fn test_leaderboards() {
    let mut leaderboard = LeaderBoards::default();
    assert_eq!(
        leaderboard
            .leaderboard_for_level(GameDifficulty::Beginner)
            .entries
            .len(),
        0
    );

    leaderboard.add(GameDifficulty::Beginner, "Player 1", 100.0_f64.to_bits());
    assert_eq!(
        leaderboard
            .leaderboard_for_level(GameDifficulty::Beginner)
            .entries
            .len(),
        1
    );
    leaderboard.add(GameDifficulty::Beginner, "Player 2", 300.0_f64.to_bits());
    leaderboard.add(GameDifficulty::Beginner, "Player 3", 200.0_f64.to_bits());
    assert_eq!(
        leaderboard
            .leaderboard_for_level(GameDifficulty::Beginner)
            .entries
            .len(),
        3
    );
    assert_eq!(leaderboard.beginner.entries[1].player_name, "Player 3");

    (0..MAX_ENTRIES_PER_BOARD + 10).for_each(|_| {
        leaderboard.add(GameDifficulty::Beginner, "Player 2", 300.0_f64.to_bits());
    });
    assert_eq!(
        leaderboard
            .leaderboard_for_level(GameDifficulty::Beginner)
            .entries
            .len(),
        MAX_ENTRIES_PER_BOARD
    );
}

#[test]
fn boards_are_kept_apart() {
    let mut boards = LeaderBoards::default();
    boards.add(GameDifficulty::Expert, "Ada", 512.5_f64.to_bits());
    boards.add(GameDifficulty::Intermediate, "Bob", 99.0_f64.to_bits());
    boards.add(GameDifficulty::Expert, "Cy", 300.25_f64.to_bits());
    assert_eq!(boards.beginner.entries.len(), 0);
    assert_eq!(boards.intermediate.entries.len(), 1);
    assert_eq!(boards.expert.entries.len(), 2);
    assert_eq!(boards.expert.entries[0].player_name, "Cy");
    assert_eq!(f64::from_bits(boards.expert.entries[0].time), 300.25);
    assert_eq!(boards.expert.entries[1].player_name, "Ada");
    assert_eq!(boards.intermediate.entries[0].player_name, "Bob");
    let copy = boards.leaderboard_for_level(GameDifficulty::Expert);
    assert_eq!(copy.entries, boards.expert.entries);
    let all = boards.clone();
    assert_eq!(all.intermediate.entries, boards.intermediate.entries);
    assert_eq!(all.expert.entries, boards.expert.entries);
    boards.add_entry(GameDifficulty::Beginner, entry("Di", 1.0));
    assert_eq!(boards.beginner.entries, vec![entry("Di", 1.0)]);
}

#[test]
fn ranks_follow_the_total_order_of_doubles() {
    assert_eq!(rank_of(0), 0);
    assert_eq!(rank_of(5), 5);
    assert_eq!(rank_of(0x8000_0000_0000_0000), -1);
    assert_eq!(rank_of(u64::MAX), i64::MIN);
    assert_eq!(rank_of(0x7fff_ffff_ffff_ffff), i64::MAX);
    assert_eq!(rank_of(1.0_f64.to_bits()), 0x3ff0_0000_0000_0000);
    let values = [
        f64::NEG_INFINITY,
        -1.0e300,
        -2.5,
        -1.0,
        -f64::MIN_POSITIVE,
        -0.0,
        0.0,
        f64::MIN_POSITIVE,
        0.5,
        1.0,
        1.0000000000000002,
        99.99,
        100.0,
        1.0e300,
        f64::INFINITY,
        f64::NAN,
    ];
    for a in values {
        for b in values {
            assert_eq!(
                rank_of(a.to_bits()).cmp(&rank_of(b.to_bits())),
                a.total_cmp(&b),
                "{} against {}",
                a,
                b
            );
        }
    }
}

#[test]
fn sorting_is_stable_and_keeps_the_best() {
    let times = [
        7.5, 3.0, 9.0, 3.0, 1.0, 12.0, 7.5, 0.25, 3.0, 40.0, 2.0, 2.0, 8.0, 6.0, 5.0, 4.0, 3.5,
        11.0, 10.0, 13.0, 14.0, 15.0, 16.0, 17.0, 18.0, 19.0, 20.0, 0.5, 21.0, 22.0, 3.0,
    ];
    let mut board = LeaderBoard::default();
    let mut expected = Vec::new();
    for (i, t) in times.iter().enumerate() {
        let name = format!("player {}", i);
        board.entries.push(entry(&name, *t));
        expected.push((name, *t));
    }
    board.sort_and_trim();
    expected.sort_by(|a, b| a.1.total_cmp(&b.1));
    expected.truncate(MAX_ENTRIES_PER_BOARD);
    assert_eq!(board.entries.len(), 25);
    let got: Vec<(String, f64)> = board
        .entries
        .iter()
        .map(|e| (e.player_name.clone(), f64::from_bits(e.time)))
        .collect();
    assert_eq!(got, expected);
    assert_eq!(got[0], ("player 7".to_string(), 0.25));
    assert_eq!(got[1], ("player 27".to_string(), 0.5));
    assert_eq!(got[3], ("player 10".to_string(), 2.0));
    assert_eq!(got[4], ("player 11".to_string(), 2.0));
    assert_eq!(got[5], ("player 1".to_string(), 3.0));
    assert_eq!(got[8], ("player 30".to_string(), 3.0));
    assert_eq!(got[24], ("player 23".to_string(), 17.0));
}

#[test]
fn a_short_board_keeps_everything() {
    let mut board = LeaderBoard::default();
    board.sort_and_trim();
    assert_eq!(board.entries.len(), 0);
    board.add_entry(entry("b", 2.0));
    board.add_entry(entry("a", 1.0));
    board.add_entry(entry("c", 2.0));
    board.add_entry(entry("d", -1.0));
    assert_eq!(
        board.entries,
        vec![entry("d", -1.0), entry("a", 1.0), entry("b", 2.0), entry("c", 2.0)]
    );
    let copy = board.clone();
    assert_eq!(copy.entries, board.entries);
}

#[test]
fn a_full_board_drops_the_slowest() {
    let mut board = LeaderBoard::default();
    for i in 0..MAX_ENTRIES_PER_BOARD {
        board.add_entry(entry("early", 10.0 + i as f64));
    }
    assert_eq!(board.entries.len(), MAX_ENTRIES_PER_BOARD);
    board.add_entry(entry("slow", 1000.0));
    assert_eq!(board.entries.len(), MAX_ENTRIES_PER_BOARD);
    assert!(board.entries.iter().all(|e| e.player_name == "early"));
    board.add_entry(entry("fast", 0.5));
    assert_eq!(board.entries.len(), MAX_ENTRIES_PER_BOARD);
    assert_eq!(board.entries[0], entry("fast", 0.5));
    assert_eq!(f64::from_bits(board.entries[24].time), 33.0);
    board.add("late", 33.0_f64.to_bits());
    assert_eq!(board.entries.len(), MAX_ENTRIES_PER_BOARD);
    assert_eq!(board.entries[24], entry("early", 33.0));
    board.add("now", 32.5_f64.to_bits());
    assert_eq!(board.entries.len(), MAX_ENTRIES_PER_BOARD);
    assert_eq!(board.entries[24].player_name, "now");
    assert_eq!(f64::from_bits(board.entries[23].time), 32.0);
    assert!(board.entries[24].date.millis > 1_600_000_000_000);
    assert!(board.entries[24].date.utc_offset.abs() < 86_400);
}
