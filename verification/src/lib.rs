//! Rules engine and self-play simulator for recursive ("ultimate")
//! tic-tac-toe: a 3x3 grid of 3x3 subboards, played on 81 cells.
//!
//! `board` holds the flat 81-cell grid and the win/draw rules,
//! `game` the turn state machine, `checkpoint` its detached
//! restorable snapshots with the odds estimate, `player` the
//! move-picking capability, and `sim` the game-loop orchestration.

pub mod board;
pub mod checkpoint;
pub mod game;
pub mod player;
pub mod sim;

pub use board::SubStatus;
pub use checkpoint::Checkpoint;
pub use checkpoint::Odds;
pub use game::Game;
pub use game::MoveError;
pub use game::Snapshot;
pub use player::Player;
pub use player::RandomBot;
pub use sim::checked_game_count;
pub use sim::play_game;
pub use sim::play_multiple_games;
pub use sim::split_games;
pub use sim::SimError;
