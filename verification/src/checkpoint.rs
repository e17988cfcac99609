//! Detached snapshots of a game, restorable later, carrying a fixed
//! outcome-odds estimate.
//!
//! A checkpoint is a deep copy of a game's state: it never changes
//! after creation, shares nothing with any live game, and loading it
//! replaces a game's entire state. The odds triple is cached at
//! creation; its components are numerators over the common
//! denominator `total`, so the three estimated probabilities sum to
//! exactly one.

use vstd::prelude::*;

use crate::board::board_ok;
use crate::board::compute_meta;
use crate::board::compute_sub_status;
use crate::board::count_filled;
use crate::board::game_over;
use crate::board::meta_winner;
use crate::board::sub_status;
use crate::board::SubStatus;
use crate::game::copy_cells;
use crate::game::copy_statuses;
use crate::game::Game;

verus! {

/// Outcome-odds estimate: `player1`, `player2` and `draw` are
/// numerators over the denominator `total`, so each probability is
/// the component divided by `total`.
#[derive(Clone, Copy, Debug, PartialEq, Eq, Structural)]
pub struct Odds {
    /// Numerator of the estimated probability that player 1 wins.
    pub player1: u32,
    /// Numerator of the estimated probability that player 2 wins.
    pub player2: u32,
    /// Numerator of the estimated probability of a draw.
    pub draw: u32,
    /// Common denominator; always the sum of the three numerators.
    pub total: u32,
}

/// Number of statuses equal to `st`.
pub open spec fn count_status(sts: Seq<SubStatus>, st: SubStatus) -> nat
    decreases sts.len(),
{
    if sts.len() == 0 {
        0
    } else {
        count_status(sts.drop_last(), st) + (if sts.last() == st {
            1nat
        } else {
            0nat
        })
    }
}

/// No status occurs more often than there are subboards.
pub proof fn lemma_count_status_le_len(sts: Seq<SubStatus>, st: SubStatus)
    ensures
        count_status(sts, st) <= sts.len(),
    decreases sts.len(),
{
    if sts.len() > 0 {
        lemma_count_status_le_len(sts.drop_last(), st);
    }
}

/// The fixed odds heuristic. A decided game gives all weight to its
/// outcome; otherwise each player's weight grows with the subboards
/// they own, the draw weight with the drawn subboards, one point of
/// smoothing each.
pub open spec fn odds_of(sts: Seq<SubStatus>, winner: i8, finished: bool) -> Odds {
    if finished {
        if winner == 1 {
            Odds { player1: 1, player2: 0, draw: 0, total: 1 }
        } else if winner == 2 {
            Odds { player1: 0, player2: 1, draw: 0, total: 1 }
        } else {
            Odds { player1: 0, player2: 0, draw: 1, total: 1 }
        }
    } else {
        Odds {
            player1: (1 + count_status(sts, SubStatus::Won(1))) as u32,
            player2: (1 + count_status(sts, SubStatus::Won(2))) as u32,
            draw: (1 + count_status(sts, SubStatus::Drawn)) as u32,
            total: (3 + count_status(sts, SubStatus::Won(1)) + count_status(sts, SubStatus::Won(2))
                + count_status(sts, SubStatus::Drawn)) as u32,
        }
    }
}

/// Law: the odds triple is a probability distribution over the three
/// outcomes: non-negative numerators summing exactly to the positive
/// denominator.
pub proof fn lemma_odds_distribution(sts: Seq<SubStatus>, winner: i8, finished: bool)
    requires
        sts.len() == 9,
    ensures
        odds_of(sts, winner, finished).total == odds_of(sts, winner, finished).player1 + odds_of(
            sts,
            winner,
            finished,
        ).player2 + odds_of(sts, winner, finished).draw,
        odds_of(sts, winner, finished).total >= 1,
{
    lemma_count_status_le_len(sts, SubStatus::Won(1));
    lemma_count_status_le_len(sts, SubStatus::Won(2));
    lemma_count_status_le_len(sts, SubStatus::Drawn);
}

/// Counts the statuses equal to `st`.
fn count_status_exec(sts: &Vec<SubStatus>, st: SubStatus) -> (n: u32)
    requires
        sts@.len() == 9,
    ensures
        n == count_status(sts@, st),
{
    let mut n: u32 = 0;
    let mut i: usize = 0;
    while i < 9
        invariant
            sts@.len() == 9,
            i <= 9,
            n <= i,
            n == count_status(sts@.subrange(0, i as int), st),
        decreases 9 - i,
    {
        proof {
            assert(sts@.subrange(0, i as int + 1).drop_last() =~= sts@.subrange(0, i as int));
            assert(sts@.subrange(0, i as int + 1).last() == sts@[i as int]);
        }
        if sts[i] == st {
            n = n + 1;
        }
        i = i + 1;
    }
    proof {
        assert(sts@.subrange(0, 9) =~= sts@);
    }
    n
}

/// Computes the odds heuristic from the nine statuses and the outcome.
pub fn compute_odds(sts: &Vec<SubStatus>, winner: i8, finished: bool) -> (o: Odds)
    requires
        sts@.len() == 9,
    ensures
        o == odds_of(sts@, winner, finished),
{
    if finished {
        if winner == 1 {
            Odds { player1: 1, player2: 0, draw: 0, total: 1 }
        } else if winner == 2 {
            Odds { player1: 0, player2: 1, draw: 0, total: 1 }
        } else {
            Odds { player1: 0, player2: 0, draw: 1, total: 1 }
        }
    } else {
        let c1 = count_status_exec(sts, SubStatus::Won(1));
        let c2 = count_status_exec(sts, SubStatus::Won(2));
        let cd = count_status_exec(sts, SubStatus::Drawn);
        proof {
            lemma_count_status_le_len(sts@, SubStatus::Won(1));
            lemma_count_status_le_len(sts@, SubStatus::Won(2));
            lemma_count_status_le_len(sts@, SubStatus::Drawn);
        }
        Odds { player1: 1 + c1, player2: 1 + c2, draw: 1 + cd, total: 3 + c1 + c2 + cd }
    }
}

/// An immutable, independently owned copy of a game's full state,
/// with the cached odds estimate.
pub struct Checkpoint {
    /// Copy of the 81 cells, subboard-major.
    pub cells: Vec<i8>,
    /// Status of each of the 9 subboards, derived from the cells.
    pub statuses: Vec<SubStatus>,
    /// The player whose turn it is: 1 or 2.
    pub active: i8,
    /// Subboard the next move must land in, or -1 for free choice.
    pub required: i8,
    /// Meta-board winner: 1 or 2 once decided, else 0.
    pub winner: i8,
    /// Whether the game has ended.
    pub finished: bool,
    /// Number of moves made so far.
    pub move_count: u32,
    /// Absolute index of the last move, or -1 if unknown or none.
    pub last_move: i8,
    /// Odds estimate cached when the checkpoint was made.
    pub odds: Odds,
}

impl Checkpoint {
    /// Internally consistent snapshot: caches agree with the cells,
    /// and the odds are the heuristic of this very state.
    pub open spec fn wf(&self) -> bool {
        &&& board_ok(self.cells@)
        &&& self.statuses@.len() == 9
        &&& forall|k: int| 0 <= k < 9 ==> #[trigger] self.statuses@[k] == sub_status(self.cells@, k)
        &&& (self.active == 1 || self.active == 2)
        &&& (self.required == -1 || (0 <= self.required < 9 && sub_status(
            self.cells@,
            self.required as int,
        ) == SubStatus::Open))
        &&& self.winner == meta_winner(self.statuses@)
        &&& self.finished == game_over(self.statuses@)
        &&& self.move_count == count_filled(self.cells@)
        &&& -1 <= self.last_move < 81
        &&& self.odds == odds_of(self.statuses@, self.winner, self.finished)
    }

    /// The cached odds triple: a distribution, fixed at creation.
    pub fn get_odds(&self) -> (o: Odds)
        requires
            self.wf(),
        ensures
            o == odds_of(self.statuses@, self.winner, self.finished),
            o.total == o.player1 + o.player2 + o.draw,
            o.total >= 1,
    {
        proof {
            lemma_odds_distribution(self.statuses@, self.winner, self.finished);
        }
        self.odds
    }

    /// Rebuilds a checkpoint from a raw board, the player to move and
    /// the required subboard, deriving statuses, outcome and odds.
    /// Rejects a board that is not 81 cells of {0, 1, 2}, a player id
    /// outside {1, 2}, and a required subboard that is neither -1 nor
    /// an open subboard of the given board.
    pub fn from_parts(board: Vec<i8>, active: i8, required: i8) -> (r: Option<Checkpoint>)
        ensures
            r is Some <==> {
                &&& board_ok(board@)
                &&& (active == 1 || active == 2)
                &&& (required == -1 || (0 <= required < 9 && sub_status(board@, required as int)
                    == SubStatus::Open))
            },
            r matches Some(c) ==> {
                &&& c.wf()
                &&& c.cells@ == board@
                &&& c.active == active
                &&& c.required == required
                &&& c.last_move == -1
            },
    {
        if board.len() != 81 {
            return None;
        }
        let mut i: usize = 0;
        while i < 81
            invariant
                board@.len() == 81,
                i <= 81,
                forall|j: int| 0 <= j < i ==> crate::board::cell_ok(#[trigger] board@[j]),
            decreases 81 - i,
        {
            let c = board[i];
            if !(c == 0 || c == 1 || c == 2) {
                return None;
            }
            i = i + 1;
        }
        if !(active == 1 || active == 2) {
            return None;
        }
        let mut statuses: Vec<SubStatus> = Vec::new();
        let mut k: usize = 0;
        while k < 9
            invariant
                board@.len() == 81,
                k <= 9,
                statuses@.len() == k,
                forall|j: int| 0 <= j < k ==> #[trigger] statuses@[j] == sub_status(board@, j),
            decreases 9 - k,
        {
            let st = compute_sub_status(&board, k);
            statuses.push(st);
            k = k + 1;
        }
        if required != -1 {
            if required < 0 || required >= 9 {
                return None;
            }
            if !(statuses[required as usize] == SubStatus::Open) {
                return None;
            }
        }
        let meta = compute_meta(&statuses);
        let moves_made = count_filled_exec(&board);
        let odds = compute_odds(&statuses, meta.0, meta.1);
        Some(
            Checkpoint {
                cells: board,
                statuses,
                active,
                required,
                winner: meta.0,
                finished: meta.1,
                move_count: moves_made,
                last_move: -1,
                odds,
            },
        )
    }
}

/// Counts the non-empty cells of a board.
fn count_filled_exec(b: &Vec<i8>) -> (n: u32)
    requires
        b@.len() == 81,
    ensures
        n == count_filled(b@),
{
    let mut n: u32 = 0;
    let mut i: usize = 0;
    while i < 81
        invariant
            b@.len() == 81,
            i <= 81,
            n <= i,
            n == count_filled(b@.subrange(0, i as int)),
        decreases 81 - i,
    {
        proof {
            assert(b@.subrange(0, i as int + 1).drop_last() =~= b@.subrange(0, i as int));
            assert(b@.subrange(0, i as int + 1).last() == b@[i as int]);
        }
        if b[i] != 0 {
            n = n + 1;
        }
        i = i + 1;
    }
    proof {
        assert(b@.subrange(0, 81) =~= b@);
    }
    n
}

impl Game {
    /// The game and the checkpoint hold the same position: every
    /// state field agrees.
    pub open spec fn agrees_with(&self, c: Checkpoint) -> bool {
        &&& self.cells@ == c.cells@
        &&& self.statuses@ == c.statuses@
        &&& self.active == c.active
        &&& self.required == c.required
        &&& self.winner == c.winner
        &&& self.finished == c.finished
        &&& self.move_count == c.move_count
        &&& self.last_move == c.last_move
    }

    /// Copies the whole game state into a fresh checkpoint, computing
    /// the odds estimate; the game itself is untouched.
    pub fn make_checkpoint(&self) -> (c: Checkpoint)
        requires
            self.wf(),
        ensures
            c.wf(),
            self.agrees_with(c),
    {
        let odds = compute_odds(&self.statuses, self.winner, self.finished);
        Checkpoint {
            cells: copy_cells(&self.cells),
            statuses: copy_statuses(&self.statuses),
            active: self.active,
            required: self.required,
            winner: self.winner,
            finished: self.finished,
            move_count: self.move_count,
            last_move: self.last_move,
            odds,
        }
    }

    /// Overwrites this game's entire state with a deep copy of the
    /// checkpoint's; only the bookkeeping id is kept. The checkpoint
    /// is untouched and can be loaded again.
    pub fn load_state(&mut self, c: &Checkpoint)
        requires
            c.wf(),
        ensures
            final(self).wf(),
            final(self).agrees_with(*c),
            final(self).id == old(self).id,
    {
        self.cells = copy_cells(&c.cells);
        self.statuses = copy_statuses(&c.statuses);
        self.active = c.active;
        self.required = c.required;
        self.winner = c.winner;
        self.finished = c.finished;
        self.move_count = c.move_count;
        self.last_move = c.last_move;
    }
}

/// Law: making a checkpoint and loading it immediately reproduces an
/// observationally identical game: same cells, same legal moves, same
/// outcome and turn.
pub proof fn lemma_checkpoint_roundtrip(g1: Game, c: Checkpoint, g2: Game)
    requires
        g1.agrees_with(c),
        g2.agrees_with(c),
    ensures
        g2.cells@ == g1.cells@,
        g2.active == g1.active,
        g2.winner == g1.winner,
        g2.finished == g1.finished,
        forall|i: int| g2.spec_move_ok(i) == g1.spec_move_ok(i),
{
}

/// Law: the odds estimate is deterministic; two checkpoints of the
/// same position carry the same triple.
pub proof fn lemma_odds_deterministic(c1: Checkpoint, c2: Checkpoint)
    requires
        c1.wf(),
        c2.wf(),
        c1.statuses@ == c2.statuses@,
        c1.winner == c2.winner,
        c1.finished == c2.finished,
    ensures
        c1.odds == c2.odds,
{
}

} // verus!
