//! The 3x3 grid of marks and its basic operations.

use vstd::prelude::*;

verus! {

/// One cell of the grid.
#[derive(Clone, Copy, PartialEq, Eq, Structural, Debug)]
pub enum Cell {
    Empty,
    Human,
    Computer,
}

/// A (row, column) coordinate on the grid, each in [0, 2].
#[derive(Clone, Copy, PartialEq, Eq, Structural, Debug)]
pub struct Move {
    pub row: usize,
    pub col: usize,
}

/// Why a request on the board was refused.
#[derive(Clone, Copy, PartialEq, Eq, Structural, Debug)]
pub enum GameError {
    /// `place` was aimed outside the grid or at an occupied cell.
    InvalidMove,
    /// `best_move` was asked for a move on a board with no empty cell.
    NoMove,
}

/// The grid, one field per cell in row-major order: cell (r, c) is
/// field number 3*r + c.
#[derive(Clone, Copy, PartialEq, Eq, Structural, Debug)]
pub struct Board {
    pub c0: Cell,
    pub c1: Cell,
    pub c2: Cell,
    pub c3: Cell,
    pub c4: Cell,
    pub c5: Cell,
    pub c6: Cell,
    pub c7: Cell,
    pub c8: Cell,
}

impl View for Board {
    type V = Seq<Cell>;

    open spec fn view(&self) -> Seq<Cell> {
        seq![self.c0, self.c1, self.c2, self.c3, self.c4, self.c5, self.c6, self.c7, self.c8]
    }
}

/// The board with every cell empty.
pub open spec fn empty_board() -> Seq<Cell> {
    Seq::new(9, |i: int| Cell::Empty)
}

/// 1 if cell `i` is empty, 0 otherwise.
pub open spec fn empty_in(s: Seq<Cell>, i: int) -> int {
    if s[i] == Cell::Empty {
        1int
    } else {
        0int
    }
}

/// How many of the nine cells are empty.
pub open spec fn empty_count(s: Seq<Cell>) -> int {
    empty_in(s, 0) + empty_in(s, 1) + empty_in(s, 2) + empty_in(s, 3) + empty_in(s, 4)
        + empty_in(s, 5) + empty_in(s, 6) + empty_in(s, 7) + empty_in(s, 8)
}

/// No empty cell remains.
pub open spec fn full(s: Seq<Cell>) -> bool {
    s[0] != Cell::Empty && s[1] != Cell::Empty && s[2] != Cell::Empty && s[3] != Cell::Empty
        && s[4] != Cell::Empty && s[5] != Cell::Empty && s[6] != Cell::Empty
        && s[7] != Cell::Empty && s[8] != Cell::Empty
}

/// The Move that names flat cell index `i`.
pub open spec fn idx_move(i: int) -> Move {
    Move { row: (i / 3) as usize, col: (i % 3) as usize }
}

/// The moves naming the empty cells among the first `k`, in row-major
/// order.
pub open spec fn empty_cells_upto(s: Seq<Cell>, k: int) -> Seq<Move>
    decreases k,
{
    if k <= 0 {
        Seq::empty()
    } else if s[k - 1] == Cell::Empty {
        empty_cells_upto(s, k - 1).push(idx_move(k - 1))
    } else {
        empty_cells_upto(s, k - 1)
    }
}

/// Marking an empty cell leaves one empty cell fewer.
pub proof fn lemma_empty_count_update(s: Seq<Cell>, i: int, m: Cell)
    requires
        s.len() == 9,
        0 <= i < 9,
        s[i] == Cell::Empty,
        m != Cell::Empty,
    ensures
        empty_count(s.update(i, m)) == empty_count(s) - 1,
{
    assert(forall|j: int| 0 <= j < 9 && j != i ==> s.update(i, m)[j] == s[j]);
}

impl Board {
    /// The board a game starts from: all nine cells empty.
    pub fn new() -> (b: Board)
        ensures
            b@ == empty_board(),
    {
        let b = Board {
            c0: Cell::Empty,
            c1: Cell::Empty,
            c2: Cell::Empty,
            c3: Cell::Empty,
            c4: Cell::Empty,
            c5: Cell::Empty,
            c6: Cell::Empty,
            c7: Cell::Empty,
            c8: Cell::Empty,
        };
        proof {
            assert(b@ =~= empty_board());
        }
        b
    }

    /// The mark at flat cell index `i`.
    pub fn get_idx(&self, i: usize) -> (m: Cell)
        requires
            i < 9,
        ensures
            m == self@[i as int],
    {
        match i {
            0 => self.c0,
            1 => self.c1,
            2 => self.c2,
            3 => self.c3,
            4 => self.c4,
            5 => self.c5,
            6 => self.c6,
            7 => self.c7,
            _ => self.c8,
        }
    }

    /// Overwrite the mark at flat cell index `i`.
    pub(crate) fn set_idx(&mut self, i: usize, m: Cell)
        requires
            i < 9,
        ensures
            final(self)@ == old(self)@.update(i as int, m),
    {
        match i {
            0 => self.c0 = m,
            1 => self.c1 = m,
            2 => self.c2 = m,
            3 => self.c3 = m,
            4 => self.c4 = m,
            5 => self.c5 = m,
            6 => self.c6 = m,
            7 => self.c7 = m,
            _ => self.c8 = m,
        }
        proof {
            assert(self@ =~= old(self)@.update(i as int, m));
        }
    }

    /// The mark at (row, col).
    pub fn get(&self, row: usize, col: usize) -> (m: Cell)
        requires
            row < 3,
            col < 3,
        ensures
            m == self@[3 * row as int + col as int],
    {
        self.get_idx(3 * row + col)
    }

    /// Put `mark` into the empty cell at (row, col); a target outside
    /// the grid or already occupied is refused and the board kept as it
    /// was.
    pub fn place(&mut self, mark: Cell, row: usize, col: usize) -> (r: Result<(), GameError>)
        requires
            mark != Cell::Empty,
        ensures
            (row < 3 && col < 3 && old(self)@[3 * row as int + col as int] == Cell::Empty) ==> (
                r == Ok::<(), GameError>(())
                && final(self)@ == old(self)@.update(3 * row as int + col as int, mark)
            ),
            !(row < 3 && col < 3 && old(self)@[3 * row as int + col as int] == Cell::Empty) ==> (
                r == Err::<(), GameError>(GameError::InvalidMove)
                && final(self)@ == old(self)@
            ),
    {
        if row < 3 && col < 3 {
            let i = 3 * row + col;
            if self.get_idx(i) == Cell::Empty {
                self.set_idx(i, mark);
                return Ok(());
            }
        }
        Err(GameError::InvalidMove)
    }

    /// The (row, col) pairs of the empty cells, in row-major order:
    /// row 0 first, and within a row column 0 first.
    pub fn empty_cells(&self) -> (v: Vec<Move>)
        ensures
            v@ == empty_cells_upto(self@, 9),
    {
        let mut v: Vec<Move> = Vec::new();
        let mut i: usize = 0;
        while i < 9
            invariant
                i <= 9,
                v@ == empty_cells_upto(self@, i as int),
            decreases 9 - i,
        {
            if self.get_idx(i) == Cell::Empty {
                v.push(Move { row: i / 3, col: i % 3 });
            }
            i = i + 1;
        }
        v
    }

    /// True when no empty cell remains.
    pub fn is_full(&self) -> (r: bool)
        ensures
            r == full(self@),
    {
        self.get_idx(0) != Cell::Empty && self.get_idx(1) != Cell::Empty
            && self.get_idx(2) != Cell::Empty && self.get_idx(3) != Cell::Empty
            && self.get_idx(4) != Cell::Empty && self.get_idx(5) != Cell::Empty
            && self.get_idx(6) != Cell::Empty && self.get_idx(7) != Cell::Empty
            && self.get_idx(8) != Cell::Empty
    }
}

} // verus!
