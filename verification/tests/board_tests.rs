use noughts_and_crosses::board::Board;
use noughts_and_crosses::cell::{Cell, CellState};
use noughts_and_crosses::coord::{Coord, Direction};
use noughts_and_crosses::mark::Mark;

fn set(b: &mut Board, x: usize, y: usize, m: Mark) {
    b.cell_at_mut(Coord::new(x, y)).state = CellState::Marked(m);
}

#[test]
fn new_board_is_blank() {
    let b = Board::new(4);
    assert_eq!(b.size, 4);
    assert_eq!(b.cells.len(), 4);
    let mut y: usize = 0;
    while y < 4 {
        assert_eq!(b.cells[y].len(), 4);
        let mut x: usize = 0;
        while x < 4 {
            let c = b.cell_at(Coord::new(x, y));
            assert!(matches!(c.state, CellState::Empty));
            assert!(!c.winning);
            x += 1;
        }
        y += 1;
    }
}

#[test]
fn cell_at_mut_writes_one_cell() {
    let mut b = Board::new(3);
    set(&mut b, 2, 1, Mark::Cross);
    assert_eq!(b.cell_at(Coord::new(2, 1)).state, CellState::Marked(Mark::Cross));
    assert_eq!(b.cell_at(Coord::new(1, 2)).state, CellState::Empty);
    assert_eq!(b.cell_at(Coord::new(1, 1)).state, CellState::Empty);
}

#[test]
fn default_board_is_three_by_three() {
    let b = Board::default();
    assert_eq!(b.size, 3);
    assert_eq!(b.cells.len(), 3);
    assert_eq!(b.cells[0].len(), 3);
    assert!(matches!(b.cell_at(Coord::new(2, 2)).state, CellState::Empty));
}

#[test]
fn diagonal_coords_of_a_four_board() {
    let b = Board::new(4);
    let diags = b.generate_diagonal_coords();
    assert_eq!(diags.len(), 2);
    assert_eq!(
        diags[0],
        vec![Coord::new(0, 0), Coord::new(1, 1), Coord::new(2, 2), Coord::new(3, 3)]
    );
    assert_eq!(
        diags[1],
        vec![Coord::new(3, 0), Coord::new(2, 1), Coord::new(1, 2), Coord::new(0, 3)]
    );
}

#[test]
fn complete_row_is_detected() {
    let mut b = Board::new(3);
    set(&mut b, 0, 1, Mark::Cross);
    set(&mut b, 1, 1, Mark::Cross);
    set(&mut b, 2, 1, Mark::Cross);
    let row = b.check_row(1, Mark::Cross).unwrap();
    assert_eq!(row, vec![Coord::new(0, 1), Coord::new(1, 1), Coord::new(2, 1)]);
    assert!(b.check_row(1, Mark::Nought).is_none());
    assert!(b.check_row(0, Mark::Cross).is_none());
}

#[test]
fn incomplete_column_is_not_detected() {
    let mut b = Board::new(3);
    set(&mut b, 1, 0, Mark::Nought);
    set(&mut b, 1, 2, Mark::Nought);
    assert!(b.check_column(1, Mark::Nought).is_none());
    set(&mut b, 1, 1, Mark::Nought);
    let col = b.check_column(1, Mark::Nought).unwrap();
    assert_eq!(col, vec![Coord::new(1, 0), Coord::new(1, 1), Coord::new(1, 2)]);
}

#[test]
fn win_through_column_reports_the_column() {
    let mut b = Board::new(3);
    set(&mut b, 0, 0, Mark::Cross);
    set(&mut b, 0, 1, Mark::Cross);
    set(&mut b, 0, 2, Mark::Cross);
    let line = b.is_win(Coord::new(0, 2), Mark::Cross).unwrap();
    assert_eq!(line, vec![Coord::new(0, 0), Coord::new(0, 1), Coord::new(0, 2)]);
    assert!(b.is_win(Coord::new(1, 1), Mark::Nought).is_none());
}

#[test]
fn win_through_main_diagonal_reports_it() {
    let mut b = Board::new(3);
    set(&mut b, 0, 0, Mark::Cross);
    set(&mut b, 1, 1, Mark::Cross);
    set(&mut b, 2, 2, Mark::Cross);
    let line = b.is_win(Coord::new(2, 2), Mark::Cross).unwrap();
    assert_eq!(line, vec![Coord::new(0, 0), Coord::new(1, 1), Coord::new(2, 2)]);
}

#[test]
fn win_through_anti_diagonal_reports_it() {
    let mut b = Board::new(3);
    set(&mut b, 2, 0, Mark::Nought);
    set(&mut b, 1, 1, Mark::Nought);
    set(&mut b, 0, 2, Mark::Nought);
    let line = b.is_win(Coord::new(0, 2), Mark::Nought).unwrap();
    assert_eq!(line, vec![Coord::new(2, 0), Coord::new(1, 1), Coord::new(0, 2)]);
}

#[test]
fn an_off_diagonal_move_never_reports_a_diagonal() {
    // the main diagonal is complete, but the played coordinate does not lie
    // on a diagonal, so no diagonal is considered for it
    let mut b = Board::new(3);
    set(&mut b, 0, 0, Mark::Cross);
    set(&mut b, 1, 1, Mark::Cross);
    set(&mut b, 2, 2, Mark::Cross);
    assert!(b.is_win(Coord::new(1, 0), Mark::Cross).is_none());
    assert!(b.is_win(Coord::new(0, 1), Mark::Cross).is_none());
    // on a diagonal coordinate the same board reports the line
    assert!(b.is_win(Coord::new(1, 1), Mark::Cross).is_some());
}

#[test]
fn coords_compare_with_plain_pairs() {
    let c = Coord::new(2, 1);
    assert!(c == (2, 1));
    assert!(c != (1, 2));
    assert!(c != (2, 0));
    assert_eq!(Coord::default(), Coord::new(0, 0));
}

#[test]
fn tied_axes_report_the_column_first() {
    // both the column through x=1 and the row through y=1 are complete; the
    // column is checked first, so it is the line reported
    let mut b = Board::new(3);
    set(&mut b, 1, 0, Mark::Cross);
    set(&mut b, 1, 1, Mark::Cross);
    set(&mut b, 1, 2, Mark::Cross);
    set(&mut b, 0, 1, Mark::Cross);
    set(&mut b, 2, 1, Mark::Cross);
    let line = b.is_win(Coord::new(1, 1), Mark::Cross).unwrap();
    assert_eq!(line, vec![Coord::new(1, 0), Coord::new(1, 1), Coord::new(1, 2)]);
}

#[test]
fn moves_clamp_at_every_boundary() {
    let mut c = Coord::new(0, 0);
    c.mv(Direction::Up, 3);
    assert_eq!(c, Coord::new(0, 0));
    c.mv(Direction::Left, 3);
    assert_eq!(c, Coord::new(0, 0));
    c.mv(Direction::Down, 3);
    assert_eq!(c, Coord::new(0, 1));
    c.mv(Direction::Right, 3);
    assert_eq!(c, Coord::new(1, 1));
    c.mv(Direction::Down, 3);
    c.mv(Direction::Down, 3);
    assert_eq!(c, Coord::new(1, 2));
    c.mv(Direction::Right, 3);
    c.mv(Direction::Right, 3);
    assert_eq!(c, Coord::new(2, 2));
    c.mv(Direction::Up, 3);
    assert_eq!(c, Coord::new(2, 1));
    c.mv(Direction::Left, 3);
    assert_eq!(c, Coord::new(1, 1));
}

#[test]
fn moves_stay_inside_the_smallest_board() {
    let mut c = Coord::new(1, 1);
    c.mv(Direction::Down, 2);
    c.mv(Direction::Right, 2);
    assert_eq!(c, Coord::new(1, 1));
}

#[test]
fn other_flips_and_flips_back() {
    assert_eq!(Mark::Cross.other(), Mark::Nought);
    assert_eq!(Mark::Nought.other(), Mark::Cross);
    assert_eq!(Mark::Cross.other().other(), Mark::Cross);
    assert_eq!(Mark::Nought.other().other(), Mark::Nought);
}

#[test]
fn noughts_play_first() {
    assert_eq!(Mark::default(), Mark::Nought);
}

#[test]
fn marked_cells_answer_is_marked() {
    assert!(CellState::Marked(Mark::Cross).is_marked());
    assert!(CellState::Marked(Mark::Nought).is_marked());
    assert!(!CellState::Empty.is_marked());
    let c = Cell::default();
    assert!(!c.state.is_marked());
    assert!(!c.winning);
}
