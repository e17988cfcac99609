//! The move-picking capability and its default implementation.
//!
//! A `Player` owns an identity and a win counter and can decide and
//! apply one move on a game; the contract lets the orchestrator rely
//! on exactly this much: a call leaves the game well formed and
//! either unchanged or advanced by one move. `RandomBot` is the
//! default capability: it picks uniformly at random among the legal
//! moves. Custom capabilities are other implementations of the same
//! trait.

use vstd::prelude::*;

use crate::game::Game;

verus! {

/// A decision capability with an identity and an owned win counter.
pub trait Player: Sized {
    /// The player's id: 1 or 2.
    spec fn id_spec(&self) -> i8;

    /// Games won so far, as credited by the orchestrator.
    spec fn wins_spec(&self) -> u32;

    /// The player's id.
    fn get_id(&self) -> (r: i8)
        ensures
            r == self.id_spec(),
    ;

    /// The win counter.
    fn get_wins(&self) -> (r: u32)
        ensures
            r == self.wins_spec(),
    ;

    /// Credits one more win; called by the orchestrator on game
    /// completion, never by the rules engine.
    fn increment_wins(&mut self)
        requires
            old(self).wins_spec() < u32::MAX,
        ensures
            final(self).wins_spec() == old(self).wins_spec() + 1,
            final(self).id_spec() == old(self).id_spec(),
    ;

    /// Decides and applies at most one move on `game`: on return the
    /// game is either unchanged (nothing to do, or its move was
    /// rejected) or advanced by exactly one legal move of the player
    /// whose turn it was — so no capability, however it decides, can
    /// overwrite a mark or move out of turn.
    fn make_move(&self, game: &mut Game)
        requires
            old(game).wf(),
        ensures
            final(game).wf(),
            final(game).id == old(game).id,
            final(game).move_count == old(game).move_count || final(game).move_count == old(
                game,
            ).move_count + 1,
            final(game).move_count == old(game).move_count ==> *final(game) == *old(game),
            final(game).move_count == old(game).move_count + 1 ==> {
                &&& old(game).spec_move_ok(final(game).last_move as int)
                &&& final(game).cells@ == old(game).cells@.update(
                    final(game).last_move as int,
                    old(game).active,
                )
            },
    ;
}

/// Relies on rand::Rng::gen_range over `0..n`: the drawn value lies
/// in that range; the call panics only on an empty range, which the
/// precondition rules out.
#[verifier::external_body]
fn random_below(n: usize) -> (r: usize)
    requires
        n > 0,
    ensures
        r < n,
{
    rand::Rng::gen_range(&mut rand::thread_rng(), 0..n)
}

/// The default capability: picks uniformly at random among the
/// currently legal moves, and plays it under its own id.
pub struct RandomBot {
    /// The id this bot plays under: meant to be 1 or 2.
    pub id: i8,
    /// Games won so far.
    pub wins: u32,
}

impl RandomBot {
    /// A fresh bot with no wins.
    pub fn new(id: i8) -> (r: RandomBot)
        ensures
            r.id_spec() == id,
            r.wins_spec() == 0,
    {
        RandomBot { id, wins: 0 }
    }
}

impl Player for RandomBot {
    open spec fn id_spec(&self) -> i8 {
        self.id
    }

    open spec fn wins_spec(&self) -> u32 {
        self.wins
    }

    fn get_id(&self) -> (r: i8) {
        self.id
    }

    fn get_wins(&self) -> (r: u32) {
        self.wins
    }

    fn increment_wins(&mut self) {
        self.wins = self.wins + 1;
    }

    /// Beyond the trait's promise, the default bot never sits out its
    /// own turn: whenever its id matches the active player and the
    /// game is unfinished, a legal move exists, the drawn one is
    /// legal, and the game advances — whatever the draw returned.
    fn make_move(&self, game: &mut Game)
        ensures
            self.id_spec() == old(game).active && !old(game).finished ==> final(game).move_count
                == old(game).move_count + 1,
    {
        let moves = game.get_available_moves();
        if moves.len() == 0 {
            return ;
        }
        let pick = random_below(moves.len());
        let mv = moves[pick];
        let _ = game.make_move(mv, self.id);
    }
}

} // verus!
