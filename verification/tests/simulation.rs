use superttt::checked_game_count;
use superttt::play_game;
use superttt::play_multiple_games;
use superttt::split_games;
use superttt::Game;
use superttt::Player;
use superttt::RandomBot;
use superttt::SimError;

#[test]
fn single_game_finishes_and_credits_at_most_one_win() {
    let mut p1 = RandomBot::new(1);
    let mut p2 = RandomBot::new(2);
    let mut g = Game::new(1);
    play_game(&mut p1, &mut p2, &mut g);
    assert!(g.is_finished());
    assert!(p1.get_wins() + p2.get_wins() <= 1);
    match g.get_winner() {
        Some(1) => assert_eq!((p1.get_wins(), p2.get_wins()), (1, 0)),
        Some(2) => assert_eq!((p1.get_wins(), p2.get_wins()), (0, 1)),
        _ => assert_eq!((p1.get_wins(), p2.get_wins()), (0, 0)),
    }
}

#[test]
fn hundred_games_account_for_every_game() {
    let mut p1 = RandomBot::new(1);
    let mut p2 = RandomBot::new(2);
    let undecided = play_multiple_games(&mut p1, &mut p2, 100);
    assert!(p1.get_wins() + p2.get_wins() <= 100);
    assert_eq!(p1.get_wins() + p2.get_wins() + undecided, 100);
    assert_eq!(p1.get_id(), 1);
    assert_eq!(p2.get_id(), 2);
}

#[test]
fn win_counters_accumulate_across_batches() {
    let mut p1 = RandomBot::new(1);
    let mut p2 = RandomBot::new(2);
    let u1 = play_multiple_games(&mut p1, &mut p2, 20);
    let after_first = p1.get_wins() + p2.get_wins();
    assert_eq!(after_first + u1, 20);
    let u2 = play_multiple_games(&mut p1, &mut p2, 20);
    assert_eq!(p1.get_wins() + p2.get_wins() + u1 + u2, 40);
}

#[test]
fn mismatched_ids_cannot_corrupt_a_game() {
    // both capabilities claim id 1: player 2's turns are rejected,
    // the game cannot progress, and it is abandoned without a win
    let mut p1 = RandomBot::new(1);
    let mut p2 = RandomBot::new(1);
    let mut g = Game::new(0);
    play_game(&mut p1, &mut p2, &mut g);
    assert_eq!(p1.get_wins() + p2.get_wins(), 0);
    assert!(!g.is_finished());
    assert_eq!(g.get_board().iter().filter(|c| **c != 0).count(), 1);
}

#[test]
fn default_bot_always_plays_its_turn() {
    // with matching ids a game can never stall: it ends decided or drawn
    for round in 0..10 {
        let mut p1 = RandomBot::new(1);
        let mut p2 = RandomBot::new(2);
        let mut g = Game::new(round);
        play_game(&mut p1, &mut p2, &mut g);
        assert!(g.is_finished());
    }
}

#[test]
fn game_count_capacity_is_checked() {
    assert_eq!(checked_game_count(5), Ok(5));
    assert_eq!(checked_game_count(u32::MAX as u64), Ok(u32::MAX));
    assert_eq!(checked_game_count(u32::MAX as u64 + 1), Err(SimError::CapacityExceeded));
    assert_eq!(checked_game_count(u64::MAX), Err(SimError::CapacityExceeded));
}

#[test]
fn split_games_partitions_exactly() {
    assert_eq!(split_games(10, 3), vec![4, 3, 3]);
    assert_eq!(split_games(5, 5), vec![1, 1, 1, 1, 1]);
    assert_eq!(split_games(3, 5), vec![1, 1, 1, 0, 0]);
    assert_eq!(split_games(0, 2), vec![0, 0]);
    let chunks = split_games(101, 8);
    assert_eq!(chunks.iter().sum::<u32>(), 101);
    assert_eq!(chunks.len(), 8);
}
