//! Classifying a board as won, drawn, or still in progress.

use vstd::prelude::*;
use crate::board::{Board, Cell, empty_board, full};

verus! {

/// What a board amounts to: a finished game's result, or a game still
/// going.
#[derive(Clone, Copy, PartialEq, Eq, Structural, Debug)]
pub enum Outcome {
    HumanWin,
    ComputerWin,
    Draw,
    InProgress,
}

/// Cells `a`, `b` and `c` all hold mark `m`.
pub open spec fn line_filled(s: Seq<Cell>, a: int, b: int, c: int, m: Cell) -> bool {
    s[a] == m && s[b] == m && s[c] == m
}

/// Some row, column or diagonal is filled with `m`.
pub open spec fn wins(s: Seq<Cell>, m: Cell) -> bool {
    ||| line_filled(s, 0, 1, 2, m)
    ||| line_filled(s, 3, 4, 5, m)
    ||| line_filled(s, 6, 7, 8, m)
    ||| line_filled(s, 0, 3, 6, m)
    ||| line_filled(s, 1, 4, 7, m)
    ||| line_filled(s, 2, 5, 8, m)
    ||| line_filled(s, 0, 4, 8, m)
    ||| line_filled(s, 2, 4, 6, m)
}

/// What `check_win` returns: a human line is a human win, a computer
/// line a computer win, a full board with neither a draw, and anything
/// else a game still in progress.
pub open spec fn spec_check_win(s: Seq<Cell>) -> Outcome {
    if wins(s, Cell::Human) {
        Outcome::HumanWin
    } else if wins(s, Cell::Computer) {
        Outcome::ComputerWin
    } else if full(s) {
        Outcome::Draw
    } else {
        Outcome::InProgress
    }
}

/// The score the search gives a board: the computer's win is worth 10,
/// the human's -10, anything else 0.
pub open spec fn spec_score(s: Seq<Cell>) -> int {
    match spec_check_win(s) {
        Outcome::HumanWin => -10,
        Outcome::ComputerWin => 10,
        _ => 0,
    }
}

/// True when cells `a`, `b` and `c` all hold `m`.
fn line_is(board: &Board, a: usize, b: usize, c: usize, m: Cell) -> (r: bool)
    requires
        a < 9,
        b < 9,
        c < 9,
    ensures
        r == line_filled(board@, a as int, b as int, c as int, m),
{
    board.get_idx(a) == m && board.get_idx(b) == m && board.get_idx(c) == m
}

/// True when some row, column or diagonal is filled with `m`.
fn has_line(board: &Board, m: Cell) -> (r: bool)
    ensures
        r == wins(board@, m),
{
    line_is(board, 0, 1, 2, m) || line_is(board, 3, 4, 5, m) || line_is(board, 6, 7, 8, m)
        || line_is(board, 0, 3, 6, m) || line_is(board, 1, 4, 7, m)
        || line_is(board, 2, 5, 8, m) || line_is(board, 0, 4, 8, m)
        || line_is(board, 2, 4, 6, m)
}

/// Classify the board, checking the three rows, three columns and two
/// diagonals: a human line first, then a computer line, then a full
/// board as a draw; otherwise the game is still in progress.
pub fn check_win(board: Board) -> (r: Outcome)
    ensures
        r == spec_check_win(board@),
{
    if has_line(&board, Cell::Human) {
        Outcome::HumanWin
    } else if has_line(&board, Cell::Computer) {
        Outcome::ComputerWin
    } else if board.is_full() {
        Outcome::Draw
    } else {
        Outcome::InProgress
    }
}

/// The search's score for the board: 10 for a computer win, -10 for a
/// human win, 0 otherwise.
pub fn evaluate_score(board: Board) -> (r: i32)
    ensures
        r as int == spec_score(board@),
{
    match check_win(board) {
        Outcome::HumanWin => -10,
        Outcome::ComputerWin => 10,
        _ => 0,
    }
}

/// Evaluation always lands in one of the four outcomes; being a function
/// of the board alone, re-evaluating an unchanged board repeats the same
/// one.
pub proof fn lemma_check_win_total(s: Seq<Cell>)
    ensures
        spec_check_win(s) is HumanWin || spec_check_win(s) is ComputerWin
            || spec_check_win(s) is Draw || spec_check_win(s) is InProgress,
{
}

/// The three flat cell indices of winning line `l`: lines 0-2 are the
/// rows, 3-5 the columns, 6 the diagonal and 7 the anti-diagonal.
pub open spec fn line(l: int) -> (int, int, int) {
    if l == 0 {
        (0int, 1int, 2int)
    } else if l == 1 {
        (3int, 4int, 5int)
    } else if l == 2 {
        (6int, 7int, 8int)
    } else if l == 3 {
        (0int, 3int, 6int)
    } else if l == 4 {
        (1int, 4int, 7int)
    } else if l == 5 {
        (2int, 5int, 8int)
    } else if l == 6 {
        (0int, 4int, 8int)
    } else {
        (2int, 4int, 6int)
    }
}

/// The board whose winning line `l` is filled with `m` and whose other
/// cells are all empty.
pub open spec fn line_board(l: int, m: Cell) -> Seq<Cell> {
    Seq::new(9, |i: int| if i == line(l).0 || i == line(l).1 || i == line(l).2 {
        m
    } else {
        Cell::Empty
    })
}

/// Each of the eight winning lines, filled with one player's mark on an
/// otherwise empty board, evaluates to that player's win.
pub proof fn lemma_winning_line(l: int, m: Cell)
    requires
        0 <= l < 8,
        m != Cell::Empty,
    ensures
        spec_check_win(line_board(l, m)) == (if m == Cell::Human {
            Outcome::HumanWin
        } else {
            Outcome::ComputerWin
        }),
{
    let s = line_board(l, m);
    assert(s[line(l).0] == m && s[line(l).1] == m && s[line(l).2] == m);
    assert(wins(s, m));
    let o = if m == Cell::Human { Cell::Computer } else { Cell::Human };
    assert(forall|i: int| 0 <= i < 9 ==> s[i] != o);
    assert(!wins(s, o));
}

/// A board with every cell filled and no line for either player is a
/// draw.
pub proof fn lemma_full_without_line_is_draw(s: Seq<Cell>)
    requires
        s.len() == 9,
        full(s),
        !wins(s, Cell::Human),
        !wins(s, Cell::Computer),
    ensures
        spec_check_win(s) == Outcome::Draw,
{
}

/// The all-empty board is still in progress.
pub proof fn lemma_empty_board_in_progress()
    ensures
        spec_check_win(empty_board()) == Outcome::InProgress,
{
    let s = empty_board();
    assert(forall|i: int| 0 <= i < 9 ==> s[i] == Cell::Empty);
}

} // verus!
