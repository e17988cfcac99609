//! Drives games to completion and aggregates win counts.
//!
//! `play_game` runs one game, re-polling on each iteration whose
//! turn it is and invoking that player's capability, then credits
//! the winner. `play_multiple_games` runs fresh games back to back
//! on the same two players. `split_games` partitions a batch across
//! workers; the workers themselves, being threads, live with the
//! embedding, which runs one `play_multiple_games` per worker.

use vstd::prelude::*;

use crate::board::is_terminal;
use crate::board::lemma_count_filled_le_len;
use crate::board::lemma_status_monotonic;
use crate::board::sub_status;
use crate::game::Game;
use crate::player::Player;

verus! {

/// Runs `game` until it is finished, alternating by asking the game
/// whose turn it is, then credits the winning player with one win; a
/// draw credits neither. If a capability returns without moving, the
/// game cannot progress and is abandoned undecided, crediting
/// neither player. Across the whole run no mark is ever overwritten
/// and no terminal subboard ever changes status, whatever the
/// capabilities decide.
pub fn play_game<A: Player, B: Player>(player1: &mut A, player2: &mut B, game: &mut Game)
    requires
        old(game).wf(),
        old(player1).wins_spec() < u32::MAX,
        old(player2).wins_spec() < u32::MAX,
    ensures
        final(game).wf(),
        final(game).id == old(game).id,
        final(player1).id_spec() == old(player1).id_spec(),
        final(player2).id_spec() == old(player2).id_spec(),
        final(game).winner == 1 ==> final(player1).wins_spec() == old(player1).wins_spec() + 1
            && final(player2).wins_spec() == old(player2).wins_spec(),
        final(game).winner == 2 ==> final(player2).wins_spec() == old(player2).wins_spec() + 1
            && final(player1).wins_spec() == old(player1).wins_spec(),
        final(game).winner == 0 ==> final(player1).wins_spec() == old(player1).wins_spec()
            && final(player2).wins_spec() == old(player2).wins_spec(),
        forall|j: int|
            0 <= j < 81 && old(game).cells@[j] != 0 ==> final(game).cells@[j] == old(
                game,
            ).cells@[j],
        forall|k: int|
            0 <= k < 9 && is_terminal(#[trigger] sub_status(old(game).cells@, k)) ==> sub_status(
                final(game).cells@,
                k,
            ) == sub_status(old(game).cells@, k),
{
    let ghost p1_at_start = *player1;
    let ghost p2_at_start = *player2;
    let ghost gid = game.id;
    let ghost cells_at_start = game.cells@;
    proof {
        lemma_count_filled_le_len(game.cells@);
    }
    loop
        invariant_except_break
            game.wf(),
            game.id == gid,
            game.move_count <= 81,
            *player1 == p1_at_start,
            *player2 == p2_at_start,
            forall|j: int|
                0 <= j < 81 && cells_at_start[j] != 0 ==> #[trigger] game.cells@[j]
                    == cells_at_start[j],
            forall|k: int|
                0 <= k < 9 && is_terminal(#[trigger] sub_status(cells_at_start, k)) ==> sub_status(
                    game.cells@,
                    k,
                ) == sub_status(cells_at_start, k),
        ensures
            game.wf(),
            game.id == gid,
            *player1 == p1_at_start,
            *player2 == p2_at_start,
            forall|j: int|
                0 <= j < 81 && cells_at_start[j] != 0 ==> #[trigger] game.cells@[j]
                    == cells_at_start[j],
            forall|k: int|
                0 <= k < 9 && is_terminal(#[trigger] sub_status(cells_at_start, k)) ==> sub_status(
                    game.cells@,
                    k,
                ) == sub_status(cells_at_start, k),
        decreases 81 - game.move_count,
    {
        if game.is_finished() {
            break ;
        }
        let before = game.move_count;
        let ghost game_at_turn = *game;
        if game.active == 1 {
            player1.make_move(game);
        } else {
            player2.make_move(game);
        }
        proof {
            lemma_count_filled_le_len(game.cells@);
            if game.move_count == before + 1 {
                let lm = game.last_move as int;
                lemma_status_monotonic(game_at_turn.cells@, lm, game_at_turn.active);
                assert(game_at_turn.cells@[lm] == 0);
                assert forall|j: int|
                    0 <= j < 81 && cells_at_start[j] != 0 implies #[trigger] game.cells@[j]
                    == cells_at_start[j] by {
                    assert(game_at_turn.cells@[j] == cells_at_start[j]);
                }
            }
        }
        if game.move_count == before {
            // The capability made no move; nothing can change any
            // more, so stop rather than poll it forever.
            break ;
        }
    }
    match game.get_winner() {
        Some(w) => {
            if w == 1 {
                player1.increment_wins();
            } else if w == 2 {
                player2.increment_wins();
            }
        },
        None => {},
    }
}

/// Runs `number_of_games` fresh games back to back on the same two
/// players, crediting wins across the whole batch, and returns how
/// many games produced no winner. Every game is thus accounted for:
/// the wins added to each player plus the returned count equal the
/// number of games played.
pub fn play_multiple_games<A: Player, B: Player>(
    player1: &mut A,
    player2: &mut B,
    number_of_games: u32,
) -> (no_winner: u32)
    requires
        old(player1).wins_spec() + number_of_games <= u32::MAX,
        old(player2).wins_spec() + number_of_games <= u32::MAX,
    ensures
        final(player1).id_spec() == old(player1).id_spec(),
        final(player2).id_spec() == old(player2).id_spec(),
        final(player1).wins_spec() >= old(player1).wins_spec(),
        final(player2).wins_spec() >= old(player2).wins_spec(),
        (final(player1).wins_spec() - old(player1).wins_spec()) + (final(player2).wins_spec()
            - old(player2).wins_spec()) + no_winner == number_of_games,
{
    let ghost w1_at_start = player1.wins_spec();
    let ghost w2_at_start = player2.wins_spec();
    let ghost id1_at_start = player1.id_spec();
    let ghost id2_at_start = player2.id_spec();
    let mut no_winner: u32 = 0;
    let mut played: u32 = 0;
    while played < number_of_games
        invariant
            played <= number_of_games,
            w1_at_start + number_of_games <= u32::MAX,
            w2_at_start + number_of_games <= u32::MAX,
            player1.id_spec() == id1_at_start,
            player2.id_spec() == id2_at_start,
            player1.wins_spec() >= w1_at_start,
            player2.wins_spec() >= w2_at_start,
            (player1.wins_spec() - w1_at_start) + (player2.wins_spec() - w2_at_start) + no_winner
                == played,
        decreases number_of_games - played,
    {
        let mut game = Game::new(0);
        play_game(player1, player2, &mut game);
        match game.get_winner() {
            Some(_) => {},
            None => {
                no_winner = no_winner + 1;
            },
        }
        played = played + 1;
    }
    no_winner
}

/// Why a batch request was rejected before any game ran.
#[derive(Clone, Copy, Debug, PartialEq, Eq, Structural)]
pub enum SimError {
    /// The requested game count cannot be represented by the
    /// orchestrator's counting type.
    CapacityExceeded,
}

/// Validates a requested game count against the orchestrator's
/// counting type, before any game runs: the count comes back intact
/// exactly when it fits, and the request is rejected otherwise.
pub fn checked_game_count(requested: u64) -> (r: Result<u32, SimError>)
    ensures
        r is Ok <==> requested <= u32::MAX,
        r matches Ok(n) ==> n == requested,
        r matches Err(e) ==> e == SimError::CapacityExceeded,
{
    if requested <= u32::MAX as u64 {
        Ok(requested as u32)
    } else {
        Err(SimError::CapacityExceeded)
    }
}

/// Sum of a sequence of chunk sizes.
pub open spec fn sum_chunks(s: Seq<u32>) -> int
    decreases s.len(),
{
    if s.len() == 0 {
        0
    } else {
        sum_chunks(s.drop_last()) + s.last()
    }
}

/// Partitions `number_of_games` into `number_of_threads` chunk sizes
/// that sum to the whole batch, as evenly as possible: the division
/// remainder is spread one game each over the first chunks.
pub fn split_games(number_of_games: u32, number_of_threads: u32) -> (chunks: Vec<u32>)
    requires
        number_of_threads >= 1,
    ensures
        chunks@.len() == number_of_threads,
        sum_chunks(chunks@) == number_of_games,
        forall|t: int| 0 <= t < chunks@.len() ==> #[trigger] chunks@[t] <= number_of_games,
        forall|t: int|
            0 <= t < chunks@.len() ==> #[trigger] chunks@[t] == number_of_games
                / number_of_threads + (if t < number_of_games % number_of_threads {
                1int
            } else {
                0int
            }),
{
    let base = number_of_games / number_of_threads;
    let rem = number_of_games % number_of_threads;
    let mut chunks: Vec<u32> = Vec::new();
    let mut i: u32 = 0;
    while i < number_of_threads
        invariant
            number_of_threads >= 1,
            base == number_of_games / number_of_threads,
            rem == number_of_games % number_of_threads,
            i <= number_of_threads,
            chunks@.len() == i,
            sum_chunks(chunks@) == i * base + (if i <= rem {
                i as int
            } else {
                rem as int
            }),
            forall|t: int| 0 <= t < chunks@.len() ==> #[trigger] chunks@[t] <= number_of_games,
            forall|t: int|
                0 <= t < chunks@.len() ==> #[trigger] chunks@[t] == base + (if t < rem {
                    1int
                } else {
                    0int
                }),
        decreases number_of_threads - i,
    {
        let ghost chunks_before = chunks@;
        proof {
            assert(base <= number_of_games) by (nonlinear_arith)
                requires
                    base == number_of_games / number_of_threads,
                    number_of_threads >= 1,
            ;
            if i < rem {
                assert(base < number_of_games) by (nonlinear_arith)
                    requires
                        base == number_of_games / number_of_threads,
                        rem == number_of_games % number_of_threads,
                        number_of_threads >= 1,
                        rem > 0,
                ;
            }
        }
        let c = if i < rem {
            base + 1
        } else {
            base
        };
        chunks.push(c);
        proof {
            assert(chunks@.drop_last() =~= chunks_before);
            assert(sum_chunks(chunks@) == sum_chunks(chunks_before) + c);
            assert((i + 1) * base == i * base + base) by (nonlinear_arith);
        }
        i = i + 1;
    }
    proof {
        assert(number_of_threads * base + rem == number_of_games) by (nonlinear_arith)
            requires
                base == number_of_games / number_of_threads,
                rem == number_of_games % number_of_threads,
                number_of_threads >= 1,
        ;
        assert(rem < number_of_threads) by (nonlinear_arith)
            requires
                rem == number_of_games % number_of_threads,
                number_of_threads >= 1,
        ;
    }
    chunks
}

} // verus!
