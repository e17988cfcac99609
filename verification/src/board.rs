//! The 81-cell board and the win/draw rules.
//!
//! A cell holds `0` (empty), `1` or `2` (the two players' marks).
//! Absolute index `i` in `0..81` belongs to subboard `i / 9` at local
//! offset `i % 9`. Win lines are evaluated by one 3x3 evaluator,
//! shared by the subboard level (marks are cell owners) and the meta
//! level (marks are subboard owners).

use vstd::prelude::*;

verus! {

/// Derived status of one 3x3 grid: still playable, won by a player,
/// or completely filled with no winner.
#[derive(Clone, Copy, Debug, PartialEq, Eq, Structural)]
pub enum SubStatus {
    Open,
    Won(i8),
    Drawn,
}

/// A cell value is empty (0) or one of the two players' marks.
pub open spec fn cell_ok(c: i8) -> bool {
    c == 0 || c == 1 || c == 2
}

/// A well-formed flat board: 81 cells, each in range.
pub open spec fn board_ok(b: Seq<i8>) -> bool {
    &&& b.len() == 81
    &&& forall|i: int| 0 <= i < 81 ==> cell_ok(#[trigger] b[i])
}

/// The eight canonical win lines (3 rows, 3 columns, 2 diagonals) of a
/// 3x3 grid given as 9 marks, checked for player `p`.
pub open spec fn wins_line(s: Seq<i8>, p: i8) -> bool
    recommends
        s.len() == 9,
{
    ||| (s[0] == p && s[1] == p && s[2] == p)
    ||| (s[3] == p && s[4] == p && s[5] == p)
    ||| (s[6] == p && s[7] == p && s[8] == p)
    ||| (s[0] == p && s[3] == p && s[6] == p)
    ||| (s[1] == p && s[4] == p && s[7] == p)
    ||| (s[2] == p && s[5] == p && s[8] == p)
    ||| (s[0] == p && s[4] == p && s[8] == p)
    ||| (s[2] == p && s[4] == p && s[6] == p)
}

/// Every mark of the grid is set.
pub open spec fn all_filled(s: Seq<i8>) -> bool {
    forall|i: int| 0 <= i < s.len() ==> #[trigger] s[i] != 0
}

/// Status of one 3x3 grid of marks.
pub open spec fn status_of(s: Seq<i8>) -> SubStatus
    recommends
        s.len() == 9,
{
    if wins_line(s, 1) {
        SubStatus::Won(1)
    } else if wins_line(s, 2) {
        SubStatus::Won(2)
    } else if all_filled(s) {
        SubStatus::Drawn
    } else {
        SubStatus::Open
    }
}

/// The 9 cells of subboard `k` of a flat board.
pub open spec fn sub_cells(b: Seq<i8>, k: int) -> Seq<i8>
    recommends
        b.len() == 81,
        0 <= k < 9,
{
    b.subrange(9 * k, 9 * k + 9)
}

/// Derived status of subboard `k` of a flat board.
pub open spec fn sub_status(b: Seq<i8>, k: int) -> SubStatus
    recommends
        b.len() == 81,
        0 <= k < 9,
{
    status_of(sub_cells(b, k))
}

/// The meta-level mark a subboard contributes: its owner if it was
/// won, otherwise unmarked.
pub open spec fn mark_of(st: SubStatus) -> i8 {
    match st {
        SubStatus::Won(p) => p,
        _ => 0,
    }
}

/// The 3x3 grid of meta-level marks derived from the subboard statuses.
pub open spec fn meta_marks(sts: Seq<SubStatus>) -> Seq<i8> {
    Seq::new(sts.len(), |k: int| mark_of(sts[k]))
}

/// A subboard status that no later move can change.
pub open spec fn is_terminal(st: SubStatus) -> bool {
    st != SubStatus::Open
}

/// Every subboard has reached a terminal status.
pub open spec fn all_terminal(sts: Seq<SubStatus>) -> bool {
    forall|k: int| 0 <= k < sts.len() ==> is_terminal(#[trigger] sts[k])
}

/// Winner of the meta board: the player owning a meta win line, or 0.
pub open spec fn meta_winner(sts: Seq<SubStatus>) -> i8
    recommends
        sts.len() == 9,
{
    if wins_line(meta_marks(sts), 1) {
        1
    } else if wins_line(meta_marks(sts), 2) {
        2
    } else {
        0
    }
}

/// The game is over when the meta board is won, or when every
/// subboard is terminal with no meta winner (a draw).
pub open spec fn game_over(sts: Seq<SubStatus>) -> bool
    recommends
        sts.len() == 9,
{
    meta_winner(sts) != 0 || all_terminal(sts)
}

/// Number of non-empty cells of a grid.
pub open spec fn count_filled(s: Seq<i8>) -> nat
    decreases s.len(),
{
    if s.len() == 0 {
        0
    } else {
        count_filled(s.drop_last()) + (if s.last() != 0 {
            1nat
        } else {
            0nat
        })
    }
}

/// A grid never holds more marks than cells.
pub proof fn lemma_count_filled_le_len(s: Seq<i8>)
    ensures
        count_filled(s) <= s.len(),
    decreases s.len(),
{
    if s.len() > 0 {
        lemma_count_filled_le_len(s.drop_last());
    }
}

/// Writing a mark into an empty cell raises the filled count by one.
pub proof fn lemma_count_filled_update(s: Seq<i8>, i: int, v: i8)
    requires
        0 <= i < s.len(),
        s[i] == 0,
        v != 0,
    ensures
        count_filled(s.update(i, v)) == count_filled(s) + 1,
    decreases s.len(),
{
    let t = s.update(i, v);
    if i == s.len() - 1 {
        assert(t.drop_last() =~= s.drop_last());
    } else {
        assert(t.drop_last() =~= s.drop_last().update(i, v));
        lemma_count_filled_update(s.drop_last(), i, v);
    }
}

/// Checks player `p` for a line in a 3x3 grid of 9 marks.
pub fn has_line(v: &Vec<i8>, p: i8) -> (r: bool)
    requires
        v@.len() == 9,
    ensures
        r == wins_line(v@, p),
{
    (v[0] == p && v[1] == p && v[2] == p) || (v[3] == p && v[4] == p && v[5] == p) || (v[6] == p
        && v[7] == p && v[8] == p) || (v[0] == p && v[3] == p && v[6] == p) || (v[1] == p && v[4]
        == p && v[7] == p) || (v[2] == p && v[5] == p && v[8] == p) || (v[0] == p && v[4] == p
        && v[8] == p) || (v[2] == p && v[4] == p && v[6] == p)
}

/// Computes the status of a 3x3 grid of 9 marks.
pub fn compute_status(v: &Vec<i8>) -> (st: SubStatus)
    requires
        v@.len() == 9,
    ensures
        st == status_of(v@),
{
    if has_line(v, 1) {
        SubStatus::Won(1)
    } else if has_line(v, 2) {
        SubStatus::Won(2)
    } else {
        let mut i: usize = 0;
        let mut filled = true;
        while i < 9
            invariant
                v@.len() == 9,
                i <= 9,
                filled == (forall|j: int| 0 <= j < i ==> #[trigger] v@[j] != 0),
            decreases 9 - i,
        {
            if v[i] == 0 {
                filled = false;
            }
            i = i + 1;
        }
        if filled {
            SubStatus::Drawn
        } else {
            SubStatus::Open
        }
    }
}

/// Copies the 9 cells of subboard `k` out of a flat board.
pub fn extract_sub(b: &Vec<i8>, k: usize) -> (v: Vec<i8>)
    requires
        b@.len() == 81,
        k < 9,
    ensures
        v@ == sub_cells(b@, k as int),
{
    let mut v: Vec<i8> = Vec::new();
    let mut j: usize = 0;
    while j < 9
        invariant
            b@.len() == 81,
            k < 9,
            j <= 9,
            v@ == b@.subrange(9 * k as int, 9 * k as int + j as int),
        decreases 9 - j,
    {
        v.push(b[9 * k + j]);
        proof {
            assert(v@ =~= b@.subrange(9 * k as int, 9 * k as int + j as int + 1));
        }
        j = j + 1;
    }
    proof {
        assert(v@ =~= sub_cells(b@, k as int));
    }
    v
}

/// Computes the status of subboard `k` of a flat board.
pub fn compute_sub_status(b: &Vec<i8>, k: usize) -> (st: SubStatus)
    requires
        b@.len() == 81,
        k < 9,
    ensures
        st == sub_status(b@, k as int),
{
    let cells = extract_sub(b, k);
    compute_status(&cells)
}

/// Derives the meta outcome from the nine subboard statuses: the
/// meta winner (or 0) and whether the game is over.
pub fn compute_meta(sts: &Vec<SubStatus>) -> (r: (i8, bool))
    requires
        sts@.len() == 9,
    ensures
        r.0 == meta_winner(sts@),
        r.1 == game_over(sts@),
{
    let mut mks: Vec<i8> = Vec::new();
    let mut k: usize = 0;
    while k < 9
        invariant
            sts@.len() == 9,
            k <= 9,
            mks@.len() == k,
            forall|j: int| 0 <= j < k ==> #[trigger] mks@[j] == mark_of(sts@[j]),
        decreases 9 - k,
    {
        let m = match sts[k] {
            SubStatus::Won(p) => p,
            SubStatus::Open => 0,
            SubStatus::Drawn => 0,
        };
        mks.push(m);
        k = k + 1;
    }
    proof {
        assert(mks@ =~= meta_marks(sts@));
    }
    let w = if has_line(&mks, 1) {
        1
    } else if has_line(&mks, 2) {
        2
    } else {
        0
    };
    let mut term = true;
    let mut k2: usize = 0;
    while k2 < 9
        invariant
            sts@.len() == 9,
            k2 <= 9,
            term == (forall|j: int| 0 <= j < k2 ==> is_terminal(#[trigger] sts@[j])),
        decreases 9 - k2,
    {
        if sts[k2] == SubStatus::Open {
            term = false;
        }
        k2 = k2 + 1;
    }
    (w, w != 0 || term)
}

/// Law: a move writes one empty cell; no cell already carrying a mark
/// is ever overwritten.
pub proof fn lemma_write_once(b: Seq<i8>, i: int, p: i8)
    requires
        b.len() == 81,
        0 <= i < 81,
        b[i] == 0,
    ensures
        forall|j: int| 0 <= j < 81 && b[j] != 0 ==> b.update(i, p)[j] == b[j],
{
}

/// Law: subboard status is monotonic. A legal move lands in an open
/// subboard, so every subboard already won or drawn keeps its status.
pub proof fn lemma_status_monotonic(b: Seq<i8>, i: int, p: i8)
    requires
        b.len() == 81,
        0 <= i < 81,
        b[i] == 0,
        sub_status(b, i / 9) == SubStatus::Open,
    ensures
        forall|k: int|
            0 <= k < 9 && is_terminal(#[trigger] sub_status(b, k)) ==> sub_status(b.update(i, p), k)
                == sub_status(b, k),
{
    assert forall|k: int|
        0 <= k < 9 && is_terminal(#[trigger] sub_status(b, k)) implies sub_status(
        b.update(i, p),
        k,
    ) == sub_status(b, k) by {
        if k != i / 9 {
            lemma_update_other_sub(b, i, p, k);
        }
    }
}

/// A write inside subboard `j` leaves every other subboard's cells,
/// and hence its status, unchanged.
pub proof fn lemma_update_other_sub(b: Seq<i8>, i: int, v: i8, k: int)
    requires
        b.len() == 81,
        0 <= i < 81,
        0 <= k < 9,
        i / 9 != k,
    ensures
        sub_cells(b.update(i, v), k) == sub_cells(b, k),
        sub_status(b.update(i, v), k) == sub_status(b, k),
{
    assert(sub_cells(b.update(i, v), k) =~= sub_cells(b, k));
}

} // verus!
