//! The exhaustive minimax search that picks the computer's move.

use vstd::prelude::*;
use crate::board::{Board, Cell, GameError, Move, empty_count, full, idx_move,
    lemma_empty_count_update};
use crate::eval::{Outcome, check_win, spec_check_win};

verus! {

/// The value the search gives `s` with `is_max` saying whose turn it
/// is (true: the computer): a finished board scores itself, and
/// otherwise the mover takes the best score among the boards one of its
/// marks away, the computer the highest and the human the lowest.
pub open spec fn spec_minimax(s: Seq<Cell>, is_max: bool) -> int
    decreases empty_count(s), 10int,
        when s.len() == 9
{
    match spec_check_win(s) {
        Outcome::HumanWin => -10,
        Outcome::ComputerWin => 10,
        Outcome::Draw => 0,
        Outcome::InProgress => if is_max {
            search_max(s, 9)
        } else {
            search_min(s, 9)
        },
    }
}

/// The best score the computer can get by a mark in one of the first
/// `k` cells: -1000 while none of them is open.
pub open spec fn search_max(s: Seq<Cell>, k: int) -> int
    decreases empty_count(s), k,
        when 0 <= k <= 9 && s.len() == 9
{
    if k <= 0 {
        -1000
    } else {
        let prev = search_max(s, k - 1);
        if s[k - 1] == Cell::Empty {
            let sc = spec_minimax(s.update(k - 1, Cell::Computer), false);
            if sc > prev {
                sc
            } else {
                prev
            }
        } else {
            prev
        }
    }
}

/// The worst score the human can force by a mark in one of the first
/// `k` cells: 1000 while none of them is open.
pub open spec fn search_min(s: Seq<Cell>, k: int) -> int
    decreases empty_count(s), k,
        when 0 <= k <= 9 && s.len() == 9
{
    if k <= 0 {
        1000
    } else {
        let prev = search_min(s, k - 1);
        if s[k - 1] == Cell::Empty {
            let sc = spec_minimax(s.update(k - 1, Cell::Human), true);
            if sc < prev {
                sc
            } else {
                prev
            }
        } else {
            prev
        }
    }
}

/// The running (best score, chosen flat index) after scanning the first
/// `k` cells for the computer's move. Only a strictly better score
/// replaces the choice, so equal scores keep the earliest cell in
/// row-major order; (-1000, -1) stands before any open cell was seen.
pub open spec fn pick(s: Seq<Cell>, k: int) -> (int, int)
    decreases k,
{
    if k <= 0 {
        (-1000int, -1int)
    } else {
        let prev = pick(s, k - 1);
        if s[k - 1] == Cell::Empty {
            let sc = spec_minimax(s.update(k - 1, Cell::Computer), false);
            if sc > prev.0 {
                (sc, k - 1)
            } else {
                prev
            }
        } else {
            prev
        }
    }
}

/// Exhaustively score the board. A finished game scores itself;
/// otherwise the side to move tries every empty cell in row-major
/// order, scores each hypothetical board, and keeps the best score:
/// the computer (`is_max`) the highest, the human the lowest.
#[verifier::loop_isolation(false)]
pub fn minimax(board: Board, is_max: bool) -> (score: i32)
    ensures
        score as int == spec_minimax(board@, is_max),
    decreases empty_count(board@),
{
    match check_win(board) {
        Outcome::HumanWin => -10,
        Outcome::ComputerWin => 10,
        Outcome::Draw => 0,
        Outcome::InProgress => {
            if is_max {
                let mut best: i32 = -1000;
                let mut i: usize = 0;
                while i < 9
                    invariant
                        i <= 9,
                        best as int == search_max(board@, i as int),
                    decreases 9 - i,
                {
                    if board.get_idx(i) == Cell::Empty {
                        let mut child = board;
                        child.set_idx(i, Cell::Computer);
                        proof {
                            lemma_empty_count_update(board@, i as int, Cell::Computer);
                        }
                        let sc = minimax(child, false);
                        if sc > best {
                            best = sc;
                        }
                    }
                    i = i + 1;
                }
                best
            } else {
                let mut best: i32 = 1000;
                let mut i: usize = 0;
                while i < 9
                    invariant
                        i <= 9,
                        best as int == search_min(board@, i as int),
                    decreases 9 - i,
                {
                    if board.get_idx(i) == Cell::Empty {
                        let mut child = board;
                        child.set_idx(i, Cell::Human);
                        proof {
                            lemma_empty_count_update(board@, i as int, Cell::Human);
                        }
                        let sc = minimax(child, true);
                        if sc < best {
                            best = sc;
                        }
                    }
                    i = i + 1;
                }
                best
            }
        },
    }
}

/// Every minimax value lies between the two winning scores.
pub proof fn lemma_minimax_bounds(s: Seq<Cell>, is_max: bool)
    requires
        s.len() == 9,
    ensures
        -10 <= spec_minimax(s, is_max) <= 10,
    decreases empty_count(s), 10int,
{
    if spec_check_win(s) == Outcome::InProgress {
        assert(exists|i: int| 0 <= i < 9 && s[i] == Cell::Empty);
        if is_max {
            lemma_search_max_bounds(s, 9);
        } else {
            lemma_search_min_bounds(s, 9);
        }
    }
}

/// The running best of the computer's scan sits at its sentinel until
/// an open cell has been seen, and between the winning scores after.
pub proof fn lemma_search_max_bounds(s: Seq<Cell>, k: int)
    requires
        s.len() == 9,
        0 <= k <= 9,
    ensures
        (exists|i: int| 0 <= i < k && s[i] == Cell::Empty) ==> -10 <= search_max(s, k) <= 10,
        !(exists|i: int| 0 <= i < k && s[i] == Cell::Empty) ==> search_max(s, k) == -1000,
    decreases empty_count(s), k,
{
    if k > 0 {
        lemma_search_max_bounds(s, k - 1);
        if s[k - 1] == Cell::Empty {
            lemma_empty_count_update(s, k - 1, Cell::Computer);
            lemma_minimax_bounds(s.update(k - 1, Cell::Computer), false);
        }
    }
}

/// The running best of the human's scan sits at its sentinel until an
/// open cell has been seen, and between the winning scores after.
pub proof fn lemma_search_min_bounds(s: Seq<Cell>, k: int)
    requires
        s.len() == 9,
        0 <= k <= 9,
    ensures
        (exists|i: int| 0 <= i < k && s[i] == Cell::Empty) ==> -10 <= search_min(s, k) <= 10,
        !(exists|i: int| 0 <= i < k && s[i] == Cell::Empty) ==> search_min(s, k) == 1000,
    decreases empty_count(s), k,
{
    if k > 0 {
        lemma_search_min_bounds(s, k - 1);
        if s[k - 1] == Cell::Empty {
            lemma_empty_count_update(s, k - 1, Cell::Human);
            lemma_minimax_bounds(s.update(k - 1, Cell::Human), true);
        }
    }
}

/// Scanning the first `k` cells tracks exactly the best score the
/// computer can get there, and once some of them is open the chosen
/// index is an open cell achieving that score.
pub proof fn lemma_pick_props(s: Seq<Cell>, k: int)
    requires
        s.len() == 9,
        0 <= k <= 9,
    ensures
        pick(s, k).0 == search_max(s, k),
        (exists|i: int| 0 <= i < k && s[i] == Cell::Empty) ==> (
            0 <= pick(s, k).1 < k
            && s[pick(s, k).1] == Cell::Empty
            && spec_minimax(s.update(pick(s, k).1, Cell::Computer), false) == pick(s, k).0
        ),
        !(exists|i: int| 0 <= i < k && s[i] == Cell::Empty) ==> pick(s, k) == (-1000int, -1int),
    decreases k,
{
    if k > 0 {
        lemma_pick_props(s, k - 1);
        if s[k - 1] == Cell::Empty {
            lemma_minimax_bounds(s.update(k - 1, Cell::Computer), false);
            assert(s[k - 1] == Cell::Empty);
        }
    }
}

/// The human's scan never rises above any single reachable board's
/// value: one human mark in an open cell among the first `k` can only
/// meet or beat the running minimum.
pub proof fn lemma_search_min_le_child(s: Seq<Cell>, k: int, i: int)
    requires
        s.len() == 9,
        0 <= i < k <= 9,
        s[i] == Cell::Empty,
    ensures
        search_min(s, k) <= spec_minimax(s.update(i, Cell::Human), true),
    decreases k,
{
    if i < k - 1 {
        lemma_search_min_le_child(s, k - 1, i);
    }
}

/// Half of the engine's safety law: when the board facing the human is
/// worth at least a draw to the computer, no human move can turn it
/// into a human win, and whatever board the human leaves is still worth
/// at least a draw with the computer to move.
pub proof fn lemma_human_move_safe(s: Seq<Cell>, row: int, col: int)
    requires
        s.len() == 9,
        spec_check_win(s) == Outcome::InProgress,
        spec_minimax(s, false) >= 0,
        0 <= row < 3,
        0 <= col < 3,
        s[3 * row + col] == Cell::Empty,
    ensures
        spec_minimax(s.update(3 * row + col, Cell::Human), true) >= spec_minimax(s, false),
        spec_check_win(s.update(3 * row + col, Cell::Human)) != Outcome::HumanWin,
{
    lemma_search_min_le_child(s, 9, 3 * row + col);
}

/// The other half of the engine's safety law: from a still-running
/// board worth at least a draw with the computer to move, the move the
/// search picks lands on an open cell, keeps the board's value exactly,
/// and in particular leaves no human win. With `lemma_human_move_safe`
/// this carries "worth at least a draw" through any whole game the
/// computer plays by `best_move`, so no such game ends in `HumanWin`.
pub proof fn lemma_computer_reply_safe(s: Seq<Cell>)
    requires
        s.len() == 9,
        spec_check_win(s) == Outcome::InProgress,
        spec_minimax(s, true) >= 0,
    ensures
        0 <= pick(s, 9).1 < 9,
        s[pick(s, 9).1] == Cell::Empty,
        spec_minimax(s.update(pick(s, 9).1, Cell::Computer), false) == spec_minimax(s, true),
        spec_check_win(s.update(pick(s, 9).1, Cell::Computer)) != Outcome::HumanWin,
{
    assert(exists|i: int| 0 <= i < 9 && s[i] == Cell::Empty);
    lemma_pick_props(s, 9);
}

/// The computer's move: of the empty cells, the one earliest in
/// row-major order whose minimax score is maximal; `NoMove` on a board
/// with no empty cell.
#[verifier::loop_isolation(false)]
pub fn best_move(board: Board) -> (r: Result<Move, GameError>)
    ensures
        full(board@) ==> r == Err::<Move, GameError>(GameError::NoMove),
        !full(board@) ==> r == Ok::<Move, GameError>(idx_move(pick(board@, 9).1)),
{
    let mut best_val: i32 = -1000;
    let mut best_idx: i32 = -1;
    let mut i: usize = 0;
    while i < 9
        invariant
            i <= 9,
            best_val as int == pick(board@, i as int).0,
            best_idx as int == pick(board@, i as int).1,
        decreases 9 - i,
    {
        if board.get_idx(i) == Cell::Empty {
            let mut child = board;
            child.set_idx(i, Cell::Computer);
            proof {
                lemma_empty_count_update(board@, i as int, Cell::Computer);
            }
            let sc = minimax(child, false);
            if sc > best_val {
                best_val = sc;
                best_idx = i as i32;
            }
        }
        i = i + 1;
    }
    proof {
        lemma_pick_props(board@, 9);
    }
    if best_idx >= 0 {
        let bi = best_idx as usize;
        Ok(Move { row: bi / 3, col: bi % 3 })
    } else {
        Err(GameError::NoMove)
    }
}

/// Apply the searched move for the computer and hand the board back; a
/// board with no empty cell comes back unchanged.
pub fn computer_move(board: Board) -> (r: Board)
    ensures
        full(board@) ==> r@ == board@,
        !full(board@) ==> r@ == board@.update(pick(board@, 9).1, Cell::Computer),
{
    let mut b = board;
    match best_move(board) {
        Ok(m) => {
            proof {
                lemma_pick_props(board@, 9);
                assert(3 * (pick(board@, 9).1 / 3) + pick(board@, 9).1 % 3 == pick(board@, 9).1);
            }
            b.set_idx(3 * m.row + m.col, Cell::Computer);
        },
        Err(_) => {},
    }
    b
}

} // verus!
