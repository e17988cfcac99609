use superttt::Checkpoint;
use superttt::Game;
use superttt::MoveError;
use superttt::Odds;
use superttt::SubStatus;

/// A 9-cell filling with no three-in-a-row for either player.
const DRAWN_SUB: [i8; 9] = [1, 1, 2, 2, 2, 1, 1, 1, 2];

#[test]
fn checkpoint_roundtrip_preserves_observables() {
    let mut g = Game::new(3);
    g.make_move(4, 1).unwrap();
    g.make_move(40, 2).unwrap();
    let moves_before = g.get_available_moves();
    let board_before = g.get_board();
    let cp = g.make_checkpoint();
    g.load_state(&cp);
    assert_eq!(g.get_available_moves(), moves_before);
    assert_eq!(g.get_board(), board_before);
    assert_eq!(g.get_winner(), None);
    assert!(!g.is_finished());
    // the checkpoint is untouched and loads again
    g.load_state(&cp);
    assert_eq!(g.get_available_moves(), moves_before);
}

#[test]
fn checkpoint_is_a_detached_copy() {
    let mut g = Game::new(0);
    g.make_move(4, 1).unwrap();
    let cp = g.make_checkpoint();
    g.make_move(40, 2).unwrap();
    // the game advanced; the checkpoint still holds the older position
    assert_eq!(cp.cells[40], 0);
    assert_eq!(cp.active, 2);
    let mut g2 = Game::new(7);
    g2.load_state(&cp);
    assert_eq!(g2.get_board()[4], 1);
    assert_eq!(g2.get_board()[40], 0);
}

#[test]
fn odds_sum_to_one_and_are_deterministic() {
    let mut g = Game::new(0);
    g.make_move(4, 1).unwrap();
    let o1 = g.make_checkpoint().get_odds();
    let o2 = g.make_checkpoint().get_odds();
    assert_eq!(o1, o2);
    assert_eq!(o1.player1 + o1.player2 + o1.draw, o1.total);
    assert!(o1.total >= 1);
    let t = o1.total as f64;
    let probs = [o1.player1 as f64 / t, o1.player2 as f64 / t, o1.draw as f64 / t];
    let sum: f64 = probs.iter().sum();
    assert!((sum - 1.0).abs() <= 1e-9);
    for p in probs {
        assert!(p >= 0.0);
    }
}

#[test]
fn decided_game_gets_certain_odds() {
    let mut board = vec![0i8; 81];
    for s in 0..9 {
        for (j, v) in DRAWN_SUB.iter().enumerate() {
            board[9 * s + j] = *v;
        }
    }
    let cp = Checkpoint::from_parts(board, 1, -1).unwrap();
    assert_eq!(cp.get_odds(), Odds { player1: 0, player2: 0, draw: 1, total: 1 });
}

#[test]
fn all_subboards_drawn_is_a_draw() {
    let mut board = vec![0i8; 81];
    for s in 0..9 {
        for (j, v) in DRAWN_SUB.iter().enumerate() {
            board[9 * s + j] = *v;
        }
    }
    let cp = Checkpoint::from_parts(board, 1, -1).unwrap();
    let mut g = Game::new(0);
    g.load_state(&cp);
    assert!(g.is_finished());
    assert_eq!(g.get_winner(), None);
    assert!(g.get_available_moves().is_empty());
    assert_eq!(g.make_move(0, 1), Err(MoveError::IllegalMove));
}

#[test]
fn top_row_marks_alone_win_a_subboard() {
    let mut board = vec![0i8; 81];
    board[0] = 1;
    board[1] = 1;
    board[2] = 1;
    let cp = Checkpoint::from_parts(board, 2, -1).unwrap();
    assert_eq!(cp.statuses[0], SubStatus::Won(1));
    assert!(!cp.finished);
    let mut g = Game::new(0);
    g.load_state(&cp);
    let moves = g.get_available_moves();
    for i in 0..9 {
        assert!(!moves.contains(&(i as i8)));
    }
    assert_eq!(moves.len(), 72);
}

#[test]
fn from_parts_rejects_bad_states() {
    // a cell value outside {0, 1, 2}
    let mut board = vec![0i8; 81];
    board[10] = 3;
    assert!(Checkpoint::from_parts(board, 1, -1).is_none());
    // a board of the wrong size
    assert!(Checkpoint::from_parts(vec![0i8; 80], 1, -1).is_none());
    // an active player outside {1, 2}
    assert!(Checkpoint::from_parts(vec![0i8; 81], 0, -1).is_none());
    // a required subboard that is not open
    let mut won = vec![0i8; 81];
    won[0] = 1;
    won[1] = 1;
    won[2] = 1;
    assert!(Checkpoint::from_parts(won.clone(), 1, 0).is_none());
    assert!(Checkpoint::from_parts(won.clone(), 1, 9).is_none());
    assert!(Checkpoint::from_parts(won, 1, 1).is_some());
}
