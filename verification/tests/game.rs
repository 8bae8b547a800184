use tictactoe::board::{Board, Cell, GameError, Move};
use tictactoe::eval::Outcome;
use tictactoe::{best_move, check_win, computer_move, evaluate_score, minimax};

fn fill(b: &mut Board, mark: Cell, cells: &[(usize, usize)]) {
    for &(r, c) in cells {
        assert_eq!(b.place(mark, r, c), Ok(()));
    }
}

#[test]
fn empty_board_in_progress() {
    assert_eq!(check_win(Board::new()), Outcome::InProgress);
}

#[test]
fn evaluation_is_repeatable_and_total() {
    let mut b = Board::new();
    fill(&mut b, Cell::Human, &[(0, 0), (1, 1)]);
    fill(&mut b, Cell::Computer, &[(0, 1)]);
    let first = check_win(b);
    let second = check_win(b);
    assert_eq!(first, second);
    assert!(matches!(
        first,
        Outcome::HumanWin | Outcome::ComputerWin | Outcome::Draw | Outcome::InProgress
    ));
}

#[test]
fn every_winning_line_wins_for_its_mark() {
    let lines: [[usize; 3]; 8] = [
        [0, 1, 2],
        [3, 4, 5],
        [6, 7, 8],
        [0, 3, 6],
        [1, 4, 7],
        [2, 5, 8],
        [0, 4, 8],
        [2, 4, 6],
    ];
    for line in lines.iter() {
        let mut human_board = Board::new();
        let mut computer_board = Board::new();
        for &i in line.iter() {
            assert_eq!(human_board.place(Cell::Human, i / 3, i % 3), Ok(()));
            assert_eq!(computer_board.place(Cell::Computer, i / 3, i % 3), Ok(()));
        }
        assert_eq!(check_win(human_board), Outcome::HumanWin);
        assert_eq!(check_win(computer_board), Outcome::ComputerWin);
    }
}

#[test]
fn top_row_of_human_marks_wins() {
    let mut b = Board::new();
    fill(&mut b, Cell::Human, &[(0, 0), (0, 1), (0, 2)]);
    assert_eq!(check_win(b), Outcome::HumanWin);
}

#[test]
fn full_board_without_line_is_draw() {
    // X X O / O O X / X X O: no row, column or diagonal is uniform.
    let mut b = Board::new();
    fill(&mut b, Cell::Human, &[(0, 0), (0, 1), (1, 2), (2, 0), (2, 1)]);
    fill(&mut b, Cell::Computer, &[(0, 2), (1, 0), (1, 1), (2, 2)]);
    assert!(b.is_full());
    assert_eq!(check_win(b), Outcome::Draw);
}

#[test]
fn scores_follow_the_outcome() {
    let mut human = Board::new();
    fill(&mut human, Cell::Human, &[(2, 0), (2, 1), (2, 2)]);
    assert_eq!(evaluate_score(human), -10);

    let mut computer = Board::new();
    fill(&mut computer, Cell::Computer, &[(0, 0), (1, 1), (2, 2)]);
    assert_eq!(evaluate_score(computer), 10);

    assert_eq!(evaluate_score(Board::new()), 0);
}

#[test]
fn place_on_occupied_cell_is_refused_and_changes_nothing() {
    let mut b = Board::new();
    fill(&mut b, Cell::Human, &[(1, 1)]);
    let before = b;
    assert_eq!(b.place(Cell::Computer, 1, 1), Err(GameError::InvalidMove));
    assert_eq!(b, before);
}

#[test]
fn place_outside_the_grid_is_refused_and_changes_nothing() {
    let mut b = Board::new();
    let before = b;
    assert_eq!(b.place(Cell::Human, 3, 0), Err(GameError::InvalidMove));
    assert_eq!(b.place(Cell::Human, 0, 7), Err(GameError::InvalidMove));
    assert_eq!(b, before);
}

#[test]
fn get_reads_back_what_place_put() {
    let mut b = Board::new();
    fill(&mut b, Cell::Human, &[(2, 1)]);
    fill(&mut b, Cell::Computer, &[(0, 2)]);
    assert_eq!(b.get(2, 1), Cell::Human);
    assert_eq!(b.get(0, 2), Cell::Computer);
    assert_eq!(b.get(1, 1), Cell::Empty);
}

#[test]
fn empty_cells_come_in_row_major_order() {
    let mut b = Board::new();
    fill(&mut b, Cell::Human, &[(0, 1), (2, 2)]);
    fill(&mut b, Cell::Computer, &[(1, 0)]);
    let expected = vec![
        Move { row: 0, col: 0 },
        Move { row: 0, col: 2 },
        Move { row: 1, col: 1 },
        Move { row: 1, col: 2 },
        Move { row: 2, col: 0 },
        Move { row: 2, col: 1 },
    ];
    assert_eq!(b.empty_cells(), expected);
}

#[test]
fn a_full_board_offers_no_move() {
    let mut b = Board::new();
    fill(&mut b, Cell::Human, &[(0, 0), (0, 1), (1, 2), (2, 0), (2, 1)]);
    fill(&mut b, Cell::Computer, &[(0, 2), (1, 0), (1, 1), (2, 2)]);
    assert_eq!(best_move(b), Err(GameError::NoMove));
    let unchanged = computer_move(b);
    assert_eq!(unchanged, b);
}

#[test]
fn best_move_is_deterministic() {
    let mut b = Board::new();
    fill(&mut b, Cell::Human, &[(1, 1), (0, 2)]);
    fill(&mut b, Cell::Computer, &[(0, 0)]);
    let first = best_move(b);
    let second = best_move(b);
    assert!(first.is_ok());
    assert_eq!(first, second);
}

#[test]
fn reply_to_a_center_opening_is_the_first_corner() {
    let mut b = Board::new();
    fill(&mut b, Cell::Human, &[(1, 1)]);
    let m = best_move(b).unwrap();
    let corners = [(0, 0), (0, 2), (2, 0), (2, 2)];
    assert!(corners.contains(&(m.row, m.col)));
    assert_eq!(m, Move { row: 0, col: 0 });
}

#[test]
fn computer_takes_an_immediate_win() {
    let mut b = Board::new();
    fill(&mut b, Cell::Computer, &[(0, 0), (0, 1)]);
    fill(&mut b, Cell::Human, &[(1, 0), (1, 1)]);
    assert_eq!(best_move(b), Ok(Move { row: 0, col: 2 }));
}

#[test]
fn computer_blocks_an_immediate_threat() {
    let mut b = Board::new();
    fill(&mut b, Cell::Human, &[(0, 0), (0, 1)]);
    fill(&mut b, Cell::Computer, &[(1, 1)]);
    assert_eq!(best_move(b), Ok(Move { row: 0, col: 2 }));
}

#[test]
fn empty_board_is_a_forced_draw() {
    // The search value of the opening position with the human to move:
    // neither side can force a win.
    assert_eq!(minimax(Board::new(), false), 0);
}

fn count_human_wins(b: Board, human_to_move: bool, losses: &mut usize) {
    if check_win(b) != Outcome::InProgress {
        if check_win(b) == Outcome::HumanWin {
            *losses += 1;
        }
        return;
    }
    if human_to_move {
        for m in b.empty_cells() {
            let mut next = b;
            assert_eq!(next.place(Cell::Human, m.row, m.col), Ok(()));
            count_human_wins(next, false, losses);
        }
    } else {
        count_human_wins(computer_move(b), true, losses);
    }
}

#[test]
fn computer_never_loses_any_game() {
    // Every sequence of legal human moves, with the human moving first
    // and the computer answering by its search, ends in a draw or a
    // computer win.
    let mut losses: usize = 0;
    count_human_wins(Board::new(), true, &mut losses);
    assert_eq!(losses, 0);
}
