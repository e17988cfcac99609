//! One game of recursive tic-tac-toe: the board, whose turn it is,
//! which subboard the next move is confined to, and the outcome.
//!
//! The subboard statuses, the meta winner and the finished flag are
//! cached fields; the well-formedness predicate `Game::wf` ties each
//! cache to the value derived from the cells, so a move only has to
//! recompute the status of the subboard it touched.

use vstd::prelude::*;

use crate::board::all_filled;
use crate::board::all_terminal;
use crate::board::board_ok;
use crate::board::compute_meta;
use crate::board::compute_sub_status;
use crate::board::count_filled;
use crate::board::game_over;
use crate::board::is_terminal;
use crate::board::lemma_count_filled_le_len;
use crate::board::lemma_count_filled_update;
use crate::board::lemma_update_other_sub;
use crate::board::meta_marks;
use crate::board::meta_winner;
use crate::board::status_of;
use crate::board::sub_cells;
use crate::board::sub_status;
use crate::board::wins_line;
use crate::board::SubStatus;

verus! {

/// Why `make_move` rejected a move. A rejected move leaves the game
/// exactly as it was.
#[derive(Clone, Copy, Debug, PartialEq, Eq, Structural)]
pub enum MoveError {
    /// The game is already over, the cell is taken, outside the
    /// required subboard, or outside the board.
    IllegalMove,
    /// The acting player is not the player whose turn it is.
    WrongPlayer,
}

/// A single move is admissible on a board under a required-subboard
/// constraint: the cell exists, is empty, lies in an open subboard,
/// and lies in the required subboard unless the choice is free (-1).
pub open spec fn move_ok(b: Seq<i8>, required: i8, i: int) -> bool {
    &&& 0 <= i < 81
    &&& b[i] == 0
    &&& sub_status(b, i / 9) == SubStatus::Open
    &&& (required == -1 || i / 9 == required as int)
}

/// One game in play: its cells, cached statuses, and turn state.
pub struct Game {
    /// Opaque label for the caller's bookkeeping; never read by the rules.
    pub id: u32,
    /// The 81 cells, subboard-major: cell `i` is subboard `i / 9`, offset `i % 9`.
    pub cells: Vec<i8>,
    /// Cached status of each of the 9 subboards.
    pub statuses: Vec<SubStatus>,
    /// The player whose turn it is: 1 or 2.
    pub active: i8,
    /// Subboard the next move must land in, or -1 for free choice.
    pub required: i8,
    /// Meta-board winner: 1 or 2 once decided, else 0.
    pub winner: i8,
    /// The game has ended, by a meta win or with every subboard terminal.
    pub finished: bool,
    /// Number of moves made so far.
    pub move_count: u32,
    /// Absolute index of the last move, or -1 before the first move.
    pub last_move: i8,
}

impl Game {
    /// Every cached field agrees with the value derived from the cells.
    pub open spec fn wf(&self) -> bool {
        &&& board_ok(self.cells@)
        &&& self.statuses@.len() == 9
        &&& forall|k: int| 0 <= k < 9 ==> #[trigger] self.statuses@[k] == sub_status(self.cells@, k)
        &&& (self.active == 1 || self.active == 2)
        &&& (self.required == -1 || (0 <= self.required < 9 && sub_status(self.cells@, self.required as int)
            == SubStatus::Open))
        &&& self.winner == meta_winner(self.statuses@)
        &&& self.finished == game_over(self.statuses@)
        &&& self.move_count == count_filled(self.cells@)
        &&& -1 <= self.last_move < 81
    }

    /// The move `i` would be accepted right now, turn order aside.
    pub open spec fn spec_move_ok(&self, i: int) -> bool {
        !self.finished && move_ok(self.cells@, self.required, i)
    }

    /// `r` is exactly the current legal-move list: every entry is a
    /// legal move, every legal move is an entry, in ascending order.
    pub open spec fn moves_listed(&self, r: Seq<i8>) -> bool {
        &&& forall|t: int| 0 <= t < r.len() ==> self.spec_move_ok(#[trigger] r[t] as int)
        &&& forall|i: int| 0 <= i < 81 && self.spec_move_ok(i) ==> r.contains(i as i8)
        &&& forall|t1: int, t2: int| 0 <= t1 < t2 < r.len() ==> r[t1] < r[t2]
    }

    /// Fresh game: empty board, player 1 to move, free choice of subboard.
    pub fn new(id: u32) -> (g: Game)
        ensures
            g.wf(),
            g.id == id,
            g.cells@.len() == 81,
            forall|i: int| 0 <= i < 81 ==> #[trigger] g.cells@[i] == 0,
            forall|k: int| 0 <= k < 9 ==> #[trigger] g.statuses@[k] == SubStatus::Open,
            g.active == 1,
            g.required == -1,
            g.winner == 0,
            !g.finished,
            g.move_count == 0,
            g.last_move == -1,
    {
        let mut cells: Vec<i8> = Vec::new();
        let mut i: usize = 0;
        while i < 81
            invariant
                i <= 81,
                cells@.len() == i,
                forall|j: int| 0 <= j < i ==> #[trigger] cells@[j] == 0,
            decreases 81 - i,
        {
            cells.push(0);
            i = i + 1;
        }
        let mut statuses: Vec<SubStatus> = Vec::new();
        let mut k: usize = 0;
        while k < 9
            invariant
                k <= 9,
                statuses@.len() == k,
                forall|j: int| 0 <= j < k ==> #[trigger] statuses@[j] == SubStatus::Open,
            decreases 9 - k,
        {
            statuses.push(SubStatus::Open);
            k = k + 1;
        }
        let g = Game {
            id,
            cells,
            statuses,
            active: 1,
            required: -1,
            winner: 0,
            finished: false,
            move_count: 0,
            last_move: -1,
        };
        proof {
            assert forall|k2: int| 0 <= k2 < 9 implies #[trigger] g.statuses@[k2] == sub_status(
                g.cells@,
                k2,
            ) by {
                let s = sub_cells(g.cells@, k2);
                assert(s[0] == 0 && s[1] == 0 && s[2] == 0 && s[3] == 0 && s[4] == 0 && s[5] == 0
                    && s[6] == 0 && s[7] == 0 && s[8] == 0);
                assert(!all_filled(s));
                assert(status_of(s) == SubStatus::Open);
            }
            let m = meta_marks(g.statuses@);
            assert(m[0] == 0 && m[1] == 0 && m[2] == 0);
            assert(!wins_line(m, 1) && !wins_line(m, 2));
            assert(!is_terminal(g.statuses@[0]));
            lemma_count_all_empty(g.cells@);
        }
        g
    }

    /// The game has reached a terminal outcome (win or draw).
    pub fn is_finished(&self) -> (r: bool)
        ensures
            r == self.finished,
    {
        self.finished
    }

    /// The winner's id, or `None` while the game runs or after a draw;
    /// callers distinguish those two with `is_finished`.
    pub fn get_winner(&self) -> (r: Option<i8>)
        requires
            self.wf(),
        ensures
            r == (if self.winner != 0 {
                Some(self.winner)
            } else {
                None::<i8>
            }),
            r is Some ==> self.finished,
    {
        if self.winner != 0 {
            Some(self.winner)
        } else {
            None
        }
    }

    /// A copy of the 81 cells.
    pub fn get_board(&self) -> (r: Vec<i8>)
        requires
            self.wf(),
        ensures
            r@ == self.cells@,
    {
        copy_cells(&self.cells)
    }

    /// The player to move next and the index of the last move (-1 if
    /// none yet), as a two-element list.
    pub fn get_previous_move(&self) -> (r: Vec<i8>)
        requires
            self.wf(),
        ensures
            r@.len() == 2,
            r@[0] == self.active,
            r@[1] == self.last_move,
    {
        let mut r: Vec<i8> = Vec::new();
        r.push(self.active);
        r.push(self.last_move);
        r
    }

    /// The legal moves right now, ascending by absolute index; empty
    /// exactly when the game is finished.
    pub fn get_available_moves(&self) -> (r: Vec<i8>)
        requires
            self.wf(),
        ensures
            self.moves_listed(r@),
            r@.len() == 0 <==> self.finished,
    {
        let mut r: Vec<i8> = Vec::new();
        if self.finished {
            return r;
        }
        let mut i: usize = 0;
        while i < 81
            invariant
                self.wf(),
                !self.finished,
                i <= 81,
                forall|t: int| 0 <= t < r@.len() ==> self.spec_move_ok(#[trigger] r@[t] as int),
                forall|j: int| 0 <= j < i && self.spec_move_ok(j) ==> r@.contains(j as i8),
                forall|t: int| 0 <= t < r@.len() ==> 0 <= #[trigger] r@[t] < i,
                forall|t1: int, t2: int| 0 <= t1 < t2 < r@.len() ==> r@[t1] < r@[t2],
            decreases 81 - i,
        {
            let sb = i / 9;
            let legal = self.cells[i] == 0 && self.statuses[sb] == SubStatus::Open && (self.required
                == -1 || sb == self.required as usize);
            if legal {
                let ghost r_old = r@;
                r.push(i as i8);
                proof {
                    assert(self.spec_move_ok(i as int));
                    assert forall|j: int| 0 <= j < i + 1 && self.spec_move_ok(j) implies r@.contains(
                        j as i8,
                    ) by {
                        if j < i {
                            let t = choose|t: int| 0 <= t < r_old.len() && r_old[t] == j as i8;
                            assert(r@[t] == j as i8);
                        } else {
                            assert(r@[r@.len() - 1] == j as i8);
                        }
                    }
                }
            } else {
                proof {
                    assert(!self.spec_move_ok(i as int));
                }
            }
            i = i + 1;
        }
        proof {
            if r@.len() == 0 {
                lemma_open_sub_has_move(*self);
                assert(forall|i: int| 0 <= i < 81 ==> !self.spec_move_ok(i));
            }
        }
        r
    }
    /// Validates and applies one move: the game must still be running,
    /// `player_id` must be the active player, and `input` must be a
    /// legal cell. On success the mark is written into the empty cell,
    /// the touched subboard's status is recomputed, the meta outcome is
    /// refreshed if that status became terminal, the turn passes, and
    /// the next required subboard is the one named by the move's local
    /// offset, or free choice if that subboard is terminal. `Ok(true)`
    /// means the game continues, `Ok(false)` that it just ended; a
    /// rejected move leaves the game untouched.
    pub fn make_move(&mut self, input: i8, player_id: i8) -> (r: Result<bool, MoveError>)
        requires
            old(self).wf(),
        ensures
            final(self).wf(),
            r is Err ==> *final(self) == *old(self),
            r matches Err(MoveError::WrongPlayer) <==> !old(self).finished && player_id != old(self).active,
            r matches Err(MoveError::IllegalMove) <==> old(self).finished || (player_id == old(self).active
                && !old(self).spec_move_ok(input as int)),
            r is Ok <==> player_id == old(self).active && old(self).spec_move_ok(input as int),
            r is Ok ==> {
                &&& old(self).cells@[input as int] == 0
                &&& final(self).cells@ == old(self).cells@.update(input as int, player_id)
                &&& final(self).active == (if old(self).active == 1 {
                    2i8
                } else {
                    1i8
                })
                &&& final(self).required == (if sub_status(final(self).cells@, (input % 9) as int)
                    == SubStatus::Open {
                    input % 9
                } else {
                    -1i8
                })
                &&& forall|k: int|
                    0 <= k < 9 && k != input as int / 9 ==> #[trigger] final(self).statuses@[k]
                        == old(self).statuses@[k]
                &&& forall|k: int|
                    0 <= k < 9 && is_terminal(#[trigger] old(self).statuses@[k])
                        ==> final(self).statuses@[k] == old(self).statuses@[k]
                &&& final(self).move_count == old(self).move_count + 1
                &&& final(self).last_move == input
                &&& final(self).id == old(self).id
            },
            r matches Ok(cont) ==> cont == !final(self).finished,
    {
        if self.finished {
            return Err(MoveError::IllegalMove);
        }
        if player_id != self.active {
            return Err(MoveError::WrongPlayer);
        }
        if input < 0 || input >= 81 {
            return Err(MoveError::IllegalMove);
        }
        let idx = input as usize;
        let sb = idx / 9;
        if self.cells[idx] != 0 {
            return Err(MoveError::IllegalMove);
        }
        if !(self.statuses[sb] == SubStatus::Open) {
            return Err(MoveError::IllegalMove);
        }
        if self.required != -1 && sb != self.required as usize {
            return Err(MoveError::IllegalMove);
        }
        proof {
            assert(old(self).spec_move_ok(input as int));
            lemma_count_filled_le_len(self.cells@);
        }
        let ghost b_old = self.cells@;
        self.cells[idx] = player_id;
        proof {
            lemma_count_filled_update(b_old, idx as int, player_id);
            assert forall|k: int| 0 <= k < 9 && k != sb implies sub_status(self.cells@, k)
                == sub_status(b_old, k) by {
                lemma_update_other_sub(b_old, idx as int, player_id, k);
            }
        }
        let new_st = compute_sub_status(&self.cells, sb);
        self.statuses[sb] = new_st;
        if !(new_st == SubStatus::Open) {
            // The touched subboard just became terminal: refresh the
            // meta outcome from the nine statuses.
            let meta = compute_meta(&self.statuses);
            self.winner = meta.0;
            self.finished = meta.1;
        } else {
            // The touched subboard stayed open, so its meta mark and
            // the finished test are exactly as before the move.
            proof {
                assert(self.statuses@ =~= old(self).statuses@);
            }
        }
        self.active = if self.active == 1 {
            2
        } else {
            1
        };
        let nxt = idx % 9;
        self.required = if self.statuses[nxt] == SubStatus::Open {
            nxt as i8
        } else {
            -1
        };
        self.move_count = self.move_count + 1;
        self.last_move = input;
        Ok(!self.finished)
    }
}

/// A read-only display snapshot of a running game: the board, the
/// player to move, and the legal moves.
pub struct Snapshot {
    /// Copy of the 81 cells, subboard-major.
    pub board: Vec<i8>,
    /// The player whose turn it is.
    pub player_id: i8,
    /// The legal moves, ascending by absolute index.
    pub possible_moves: Vec<i8>,
}

impl Game {
    /// Projects the current position into a display snapshot; the game
    /// itself is untouched.
    pub fn make_state(&self) -> (s: Snapshot)
        requires
            self.wf(),
        ensures
            s.board@ == self.cells@,
            s.player_id == self.active,
            self.moves_listed(s.possible_moves@),
    {
        Snapshot {
            board: self.get_board(),
            player_id: self.active,
            possible_moves: self.get_available_moves(),
        }
    }
}

/// Copies a vector of cells.
pub fn copy_cells(v: &Vec<i8>) -> (r: Vec<i8>)
    ensures
        r@ == v@,
{
    let mut r: Vec<i8> = Vec::new();
    let mut i: usize = 0;
    while i < v.len()
        invariant
            i <= v@.len(),
            r@ == v@.subrange(0, i as int),
        decreases v@.len() - i,
    {
        r.push(v[i]);
        proof {
            assert(r@ =~= v@.subrange(0, i as int + 1));
        }
        i = i + 1;
    }
    proof {
        assert(r@ =~= v@);
    }
    r
}

/// Copies a vector of subboard statuses.
pub fn copy_statuses(v: &Vec<SubStatus>) -> (r: Vec<SubStatus>)
    ensures
        r@ == v@,
{
    let mut r: Vec<SubStatus> = Vec::new();
    let mut i: usize = 0;
    while i < v.len()
        invariant
            i <= v@.len(),
            r@ == v@.subrange(0, i as int),
        decreases v@.len() - i,
    {
        r.push(v[i]);
        proof {
            assert(r@ =~= v@.subrange(0, i as int + 1));
        }
        i = i + 1;
    }
    proof {
        assert(r@ =~= v@);
    }
    r
}

/// An all-empty grid holds no marks.
pub proof fn lemma_count_all_empty(s: Seq<i8>)
    requires
        forall|i: int| 0 <= i < s.len() ==> #[trigger] s[i] == 0,
    ensures
        count_filled(s) == 0,
    decreases s.len(),
{
    if s.len() > 0 {
        lemma_count_all_empty(s.drop_last());
    }
}

/// An unfinished game always offers at least one legal move: the
/// required subboard is open, or with a free choice some subboard
/// still is, and an open subboard has an empty cell.
pub proof fn lemma_open_sub_has_move(g: Game)
    requires
        g.wf(),
        !g.finished,
    ensures
        exists|i: int| 0 <= i < 81 && g.spec_move_ok(i),
{
    let b = g.cells@;
    if g.required != -1 {
        let k = g.required as int;
        lemma_open_sub_cell(b, k);
        let j = choose|j: int| 0 <= j < 9 && sub_cells(b, k)[j] == 0;
        assert(b[9 * k + j] == sub_cells(b, k)[j]);
        assert((9 * k + j) / 9 == k) by (nonlinear_arith)
            requires
                0 <= k < 9,
                0 <= j < 9,
        ;
        assert(g.spec_move_ok(9 * k + j));
    } else {
        assert(!all_terminal(g.statuses@));
        let k = choose|k: int| 0 <= k < 9 && !is_terminal(g.statuses@[k]);
        assert(sub_status(b, k) == SubStatus::Open);
        lemma_open_sub_cell(b, k);
        let j = choose|j: int| 0 <= j < 9 && sub_cells(b, k)[j] == 0;
        assert(b[9 * k + j] == sub_cells(b, k)[j]);
        assert((9 * k + j) / 9 == k) by (nonlinear_arith)
            requires
                0 <= k < 9,
                0 <= j < 9,
        ;
        assert(g.spec_move_ok(9 * k + j));
    }
}

/// An open subboard has an empty cell.
pub proof fn lemma_open_sub_cell(b: Seq<i8>, k: int)
    requires
        b.len() == 81,
        0 <= k < 9,
        sub_status(b, k) == SubStatus::Open,
    ensures
        exists|j: int| 0 <= j < 9 && sub_cells(b, k)[j] == 0,
{
    let s = sub_cells(b, k);
    assert(!all_filled(s));
}

} // verus!
