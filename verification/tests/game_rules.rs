use superttt::Game;
use superttt::MoveError;
use superttt::SubStatus;

#[test]
fn fresh_game_offers_every_cell() {
    let g = Game::new(0);
    let moves = g.get_available_moves();
    assert_eq!(moves.len(), 81);
    for i in 0..81 {
        assert_eq!(moves[i] as usize, i);
    }
    assert!(!g.is_finished());
    assert_eq!(g.get_winner(), None);
    assert_eq!(g.get_previous_move(), vec![1, -1]);
}

#[test]
fn center_move_confines_to_center_subboard() {
    let mut g = Game::new(0);
    assert_eq!(g.make_move(4, 1), Ok(true));
    let moves = g.get_available_moves();
    assert_eq!(moves, vec![36, 37, 38, 39, 40, 41, 42, 43, 44]);
    assert_eq!(g.get_previous_move(), vec![2, 4]);
}

#[test]
fn top_row_wins_subboard_and_locks_its_empty_cells() {
    let mut g = Game::new(0);
    assert_eq!(g.make_move(1, 1), Ok(true)); // subboard 0, offset 1 -> go to subboard 1
    assert_eq!(g.make_move(9, 2), Ok(true)); // subboard 1, offset 0 -> go to subboard 0
    assert_eq!(g.make_move(2, 1), Ok(true)); // subboard 0, offset 2 -> go to subboard 2
    assert_eq!(g.make_move(18, 2), Ok(true)); // subboard 2, offset 0 -> go to subboard 0
    assert_eq!(g.make_move(0, 1), Ok(true)); // completes the 0-1-2 line of subboard 0
    assert_eq!(g.statuses[0], SubStatus::Won(1));
    let moves = g.get_available_moves();
    for i in 3..9 {
        // cells 3..8 of the won subboard stay empty yet are never offered again
        assert!(!moves.contains(&(i as i8)));
    }
    assert!(moves.contains(&10));
    assert!(!g.is_finished());
    assert_eq!(g.get_winner(), None);
    // the offset-0 move names the won subboard, so the choice is free:
    // a cell of some other open subboard is legal
    assert!(moves.contains(&80));
}

#[test]
fn wrong_player_is_rejected_without_effect() {
    let mut g = Game::new(0);
    let before = g.get_board();
    assert_eq!(g.make_move(4, 2), Err(MoveError::WrongPlayer));
    assert_eq!(g.get_board(), before);
    assert_eq!(g.get_available_moves().len(), 81);
}

#[test]
fn occupied_cell_is_rejected_without_effect() {
    let mut g = Game::new(0);
    assert_eq!(g.make_move(4, 1), Ok(true));
    assert_eq!(g.make_move(40, 2), Ok(true)); // subboard 4, offset 4 -> back to subboard 4
    let before = g.get_board();
    assert_eq!(g.make_move(40, 1), Err(MoveError::IllegalMove));
    assert_eq!(g.get_board(), before);
}

#[test]
fn out_of_range_index_is_rejected() {
    let mut g = Game::new(0);
    assert_eq!(g.make_move(81, 1), Err(MoveError::IllegalMove));
    assert_eq!(g.make_move(-1, 1), Err(MoveError::IllegalMove));
}

#[test]
fn move_outside_required_subboard_is_rejected() {
    let mut g = Game::new(0);
    assert_eq!(g.make_move(4, 1), Ok(true)); // play must continue in subboard 4
    assert_eq!(g.make_move(0, 2), Err(MoveError::IllegalMove));
    assert_eq!(g.make_move(36, 2), Ok(true));
}

#[test]
fn marks_are_never_overwritten() {
    let mut g = Game::new(0);
    let script = [(4i8, 1i8), (40, 2), (36, 1), (3, 2), (27, 1)];
    let mut owned: Vec<(usize, i8)> = Vec::new();
    for (cell, player) in script {
        assert_eq!(g.make_move(cell, player), Ok(true));
        owned.push((cell as usize, player));
        let board = g.get_board();
        for (c, p) in &owned {
            assert_eq!(board[*c], *p);
        }
    }
}

#[test]
fn snapshot_reflects_the_position() {
    let mut g = Game::new(0);
    assert_eq!(g.make_move(4, 1), Ok(true));
    let s = g.make_state();
    assert_eq!(s.player_id, 2);
    assert_eq!(s.board[4], 1);
    assert_eq!(s.board.len(), 81);
    assert_eq!(s.possible_moves, g.get_available_moves());
}
