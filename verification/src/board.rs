use vstd::prelude::*;

use crate::cell::{Cell, CellState};
use crate::coord::Coord;
use crate::mark::Mark;

verus! {

/// The coordinates of one candidate winning line, in the order the line is
/// walked: a column top to bottom, a row left to right, or a diagonal from
/// the top row downwards.
pub type WinCoords = Vec<Coord>;

/// The column through `x`, walked top to bottom.
pub open spec fn column_coords(size: usize, x: usize) -> Seq<Coord> {
    Seq::new(size as nat, |i: int| Coord { x, y: i as usize })
}

/// The row through `y`, walked left to right.
pub open spec fn row_coords(size: usize, y: usize) -> Seq<Coord> {
    Seq::new(size as nat, |i: int| Coord { x: i as usize, y })
}

/// The diagonal from the top-left corner to the bottom-right corner.
pub open spec fn main_diagonal_coords(size: usize) -> Seq<Coord> {
    Seq::new(size as nat, |i: int| Coord { x: i as usize, y: i as usize })
}

/// The diagonal from the top-right corner to the bottom-left corner.
pub open spec fn anti_diagonal_coords(size: usize) -> Seq<Coord> {
    Seq::new(size as nat, |i: int| Coord { x: (size - 1 - i) as usize, y: i as usize })
}

/// An N x N grid of cells, indexed `cells[row][column]`, that is
/// `cells[y][x]`. The side length is fixed at construction.
#[derive(Debug)]
pub struct Board {
    pub size: usize,
    pub cells: Vec<Vec<Cell>>,
}

impl Board {
    /// The shape invariant: `cells` is exactly `size` rows of `size` cells.
    pub open spec fn wf(self) -> bool {
        &&& self.size >= 1
        &&& self.cells@.len() == self.size
        &&& forall|y: int| 0 <= y < self.size ==> (#[trigger] self.cells@[y])@.len() == self.size
    }

    /// The cell at a coordinate, as a mathematical value.
    pub open spec fn spec_cell(self, c: Coord) -> Cell {
        self.cells@[c.y as int]@[c.x as int]
    }

    /// Whether a coordinate lies on this board.
    pub open spec fn in_bounds(self, c: Coord) -> bool {
        c.x < self.size && c.y < self.size
    }

    /// Every slot is empty and carries no winning hint.
    pub open spec fn is_blank(self) -> bool {
        forall|c: Coord|
            self.in_bounds(c) ==> #[trigger] self.spec_cell(c) == (Cell {
                state: CellState::Empty,
                winning: false,
            })
    }
}

/// All the listed slots bear `mark`.
pub open spec fn line_marked(b: Board, coords: Seq<Coord>, mark: Mark) -> bool {
    forall|i: int|
        0 <= i < coords.len() ==> (#[trigger] b.spec_cell(coords[i])).state == CellState::Marked(
            mark,
        )
}

/// Whether a coordinate lies on the main or the anti-diagonal of a board of
/// side `size`.
pub open spec fn on_diagonal(size: usize, c: Coord) -> bool {
    c.x == c.y || c.x + c.y == size - 1
}

/// The winning line reported for a board, if any: the first completed line
/// of `mark` among the column through `c.x`, the row through `c.y` and --
/// only when `c` itself lies on a diagonal -- the main diagonal and the
/// anti-diagonal, in that order. A freshly played coordinate off both
/// diagonals cannot have completed one, so neither is considered for it.
pub open spec fn spec_win_line(b: Board, c: Coord, mark: Mark) -> Option<Seq<Coord>> {
    if line_marked(b, column_coords(b.size, c.x), mark) {
        Some(column_coords(b.size, c.x))
    } else if line_marked(b, row_coords(b.size, c.y), mark) {
        Some(row_coords(b.size, c.y))
    } else if on_diagonal(b.size, c) && line_marked(b, main_diagonal_coords(b.size), mark) {
        Some(main_diagonal_coords(b.size))
    } else if on_diagonal(b.size, c) && line_marked(b, anti_diagonal_coords(b.size), mark) {
        Some(anti_diagonal_coords(b.size))
    } else {
        None
    }
}

impl Board {
    /// Allocate a `size x size` grid of empty cells.
    pub fn new(size: usize) -> (b: Board)
        requires
            size >= 1,
        ensures
            b.wf(),
            b.size == size,
            b.is_blank(),
    {
        let mut cells: Vec<Vec<Cell>> = Vec::new();
        let mut y: usize = 0;
        while y < size
            invariant
                y <= size,
                cells@.len() == y,
                forall|j: int| 0 <= j < y ==> (#[trigger] cells@[j])@.len() == size,
                forall|j: int, i: int|
                    0 <= j < y && 0 <= i < size ==> #[trigger] cells@[j]@[i] == (Cell {
                        state: CellState::Empty,
                        winning: false,
                    }),
            decreases size - y,
        {
            let mut row: Vec<Cell> = Vec::new();
            let mut x: usize = 0;
            while x < size
                invariant
                    x <= size,
                    row@.len() == x,
                    forall|i: int|
                        0 <= i < x ==> #[trigger] row@[i] == (Cell {
                            state: CellState::Empty,
                            winning: false,
                        }),
                decreases size - x,
            {
                row.push(Cell::default());
                x += 1;
            }
            cells.push(row);
            y += 1;
        }
        let b = Board { size, cells };
        assert forall|c: Coord| b.in_bounds(c) implies #[trigger] b.spec_cell(c) == (Cell {
            state: CellState::Empty,
            winning: false,
        }) by {
            assert(b.cells@[c.y as int]@[c.x as int] == (Cell {
                state: CellState::Empty,
                winning: false,
            }));
        }
        b
    }

    /// Shared access to the cell at `coord`; the caller guarantees bounds.
    pub fn cell_at(&self, coord: Coord) -> (c: &Cell)
        requires
            self.wf(),
            self.in_bounds(coord),
        ensures
            *c == self.spec_cell(coord),
    {
        &self.cells[coord.y][coord.x]
    }

    /// Exclusive access to the cell at `coord`; the caller guarantees bounds.
    /// Whatever the caller writes through the reference becomes the new cell;
    /// every other cell, and the board's shape, stay as they were.
    pub fn cell_at_mut(&mut self, coord: Coord) -> (c: &mut Cell)
        requires
            old(self).wf(),
            old(self).in_bounds(coord),
        ensures
            *c == old(self).spec_cell(coord),
            final(self).size == old(self).size,
            final(self).cells@.len() == old(self).cells@.len(),
            forall|j: int|
                0 <= j < old(self).cells@.len() && j != coord.y as int
                    ==> #[trigger] final(self).cells@[j] == old(self).cells@[j],
            final(self).cells@[coord.y as int]@ == old(self).cells@[coord.y as int]@.update(
                coord.x as int,
                *final(c),
            ),
    {
        &mut self.cells[coord.y][coord.x]
    }

    /// The coordinates of both diagonals, a pure function of the side length:
    /// first the main diagonal, then the anti-diagonal.
    pub fn generate_diagonal_coords(&self) -> (r: Vec<WinCoords>)
        requires
            self.wf(),
        ensures
            r@.len() == 2,
            r@[0]@ == main_diagonal_coords(self.size),
            r@[1]@ == anti_diagonal_coords(self.size),
    {
        let mut top_left_to_bottom_right: Vec<Coord> = Vec::new();
        let mut top_right_to_bottom_left: Vec<Coord> = Vec::new();

        let mut i: usize = 0;
        while i < self.size
            invariant
                i <= self.size,
                self.size >= 1,
                top_left_to_bottom_right@.len() == i,
                top_right_to_bottom_left@.len() == i,
                forall|j: int|
                    0 <= j < i ==> #[trigger] top_left_to_bottom_right@[j] == (Coord {
                        x: j as usize,
                        y: j as usize,
                    }),
                forall|j: int|
                    0 <= j < i ==> #[trigger] top_right_to_bottom_left@[j] == (Coord {
                        x: (self.size - 1 - j) as usize,
                        y: j as usize,
                    }),
            decreases self.size - i,
        {
            top_left_to_bottom_right.push(Coord::new(i, i));
            top_right_to_bottom_left.push(Coord::new(self.size - 1 - i, i));
            i += 1;
        }

        assert(top_left_to_bottom_right@ =~= main_diagonal_coords(self.size));
        assert(top_right_to_bottom_left@ =~= anti_diagonal_coords(self.size));

        let mut r: Vec<WinCoords> = Vec::new();
        r.push(top_left_to_bottom_right);
        r.push(top_right_to_bottom_left);
        r
    }

    /// Whether all the listed slots bear `mark`; the caller guarantees that
    /// every listed coordinate lies on the board.
    fn all_marked(&self, coords: &Vec<Coord>, mark: Mark) -> (b: bool)
        requires
            self.wf(),
            forall|i: int| 0 <= i < coords@.len() ==> self.in_bounds(#[trigger] coords@[i]),
        ensures
            b == line_marked(*self, coords@, mark),
    {
        let n = coords.len();
        let mut i: usize = 0;
        while i < n
            invariant
                i <= n,
                n == coords@.len(),
                self.wf(),
                forall|j: int| 0 <= j < coords@.len() ==> self.in_bounds(#[trigger] coords@[j]),
                forall|j: int|
                    0 <= j < i ==> (#[trigger] self.spec_cell(coords@[j])).state
                        == CellState::Marked(mark),
            decreases n - i,
        {
            let coord = coords[i];
            if !(self.cell_at(coord).state == CellState::Marked(mark)) {
                assert(self.spec_cell(coords@[i as int]).state != CellState::Marked(mark));
                return false;
            }
            i += 1;
        }
        true
    }

    /// Check the row through `y`: the completed row's coordinates if every
    /// slot of it bears `mark`, else nothing.
    pub fn check_row(&self, y: usize, mark: Mark) -> (r: Option<WinCoords>)
        requires
            self.wf(),
            y < self.size,
        ensures
            match r {
                Some(v) => v@ == row_coords(self.size, y) && line_marked(
                    *self,
                    row_coords(self.size, y),
                    mark,
                ),
                None => !line_marked(*self, row_coords(self.size, y), mark),
            },
    {
        let mut row_cs: Vec<Coord> = Vec::new();

        let mut x: usize = 0;
        while x < self.size
            invariant
                x <= self.size,
                self.wf(),
                y < self.size,
                row_cs@.len() == x,
                forall|j: int| 0 <= j < x ==> #[trigger] row_cs@[j] == (Coord { x: j as usize, y }),
                forall|j: int|
                    0 <= j < x ==> (#[trigger] self.spec_cell(Coord { x: j as usize, y })).state
                        == CellState::Marked(mark),
            decreases self.size - x,
        {
            let coord = Coord::new(x, y);
            if !(self.cell_at(coord).state == CellState::Marked(mark)) {
                proof {
                    assert(row_coords(self.size, y)[x as int] == coord);
                    assert(self.spec_cell(row_coords(self.size, y)[x as int]).state
                        != CellState::Marked(mark));
                }
                return None;
            }
            row_cs.push(coord);
            x += 1;
        }

        assert(row_cs@ =~= row_coords(self.size, y));
        assert forall|i: int| 0 <= i < row_coords(self.size, y).len() implies (#[trigger] self.spec_cell(
            row_coords(self.size, y)[i],
        )).state == CellState::Marked(mark) by {
            assert(row_coords(self.size, y)[i] == (Coord { x: i as usize, y }));
        }
        Some(row_cs)
    }

    /// Check the column through `x`: the completed column's coordinates if
    /// every slot of it bears `mark`, else nothing.
    pub fn check_column(&self, x: usize, mark: Mark) -> (r: Option<WinCoords>)
        requires
            self.wf(),
            x < self.size,
        ensures
            match r {
                Some(v) => v@ == column_coords(self.size, x) && line_marked(
                    *self,
                    column_coords(self.size, x),
                    mark,
                ),
                None => !line_marked(*self, column_coords(self.size, x), mark),
            },
    {
        let mut col_cs: Vec<Coord> = Vec::new();

        let mut y: usize = 0;
        while y < self.size
            invariant
                y <= self.size,
                self.wf(),
                x < self.size,
                col_cs@.len() == y,
                forall|j: int| 0 <= j < y ==> #[trigger] col_cs@[j] == (Coord { x, y: j as usize }),
                forall|j: int|
                    0 <= j < y ==> (#[trigger] self.spec_cell(Coord { x, y: j as usize })).state
                        == CellState::Marked(mark),
            decreases self.size - y,
        {
            let coord = Coord::new(x, y);
            if !(self.cell_at(coord).state == CellState::Marked(mark)) {
                proof {
                    assert(column_coords(self.size, x)[y as int] == coord);
                    assert(self.spec_cell(column_coords(self.size, x)[y as int]).state
                        != CellState::Marked(mark));
                }
                return None;
            }
            col_cs.push(coord);
            y += 1;
        }

        assert(col_cs@ =~= column_coords(self.size, x));
        assert forall|i: int| 0 <= i < column_coords(self.size, x).len() implies (#[trigger] self.spec_cell(
            column_coords(self.size, x)[i],
        )).state == CellState::Marked(mark) by {
            assert(column_coords(self.size, x)[i] == (Coord { x, y: i as usize }));
        }
        Some(col_cs)
    }

    /// Check both diagonals, main diagonal first: the first completed one's
    /// coordinates if every slot of it bears `mark`, else nothing.
    pub fn check_diagonals(&self, mark: Mark) -> (r: Option<WinCoords>)
        requires
            self.wf(),
        ensures
            match r {
                Some(v) => (line_marked(*self, main_diagonal_coords(self.size), mark) && v@
                    == main_diagonal_coords(self.size)) || (!line_marked(
                    *self,
                    main_diagonal_coords(self.size),
                    mark,
                ) && line_marked(*self, anti_diagonal_coords(self.size), mark) && v@
                    == anti_diagonal_coords(self.size)),
                None => !line_marked(*self, main_diagonal_coords(self.size), mark) && !line_marked(
                    *self,
                    anti_diagonal_coords(self.size),
                    mark,
                ),
            },
    {
        let mut diags = self.generate_diagonal_coords();
        let anti = match diags.pop() {
            Some(v) => v,
            None => {
                return None;
            },
        };
        let main = match diags.pop() {
            Some(v) => v,
            None => {
                return None;
            },
        };

        assert forall|i: int| 0 <= i < main@.len() implies self.in_bounds(
            #[trigger] main@[i],
        ) by {
            assert(main@[i] == (Coord { x: i as usize, y: i as usize }));
        }
        assert forall|i: int| 0 <= i < anti@.len() implies self.in_bounds(
            #[trigger] anti@[i],
        ) by {
            assert(anti@[i] == (Coord { x: (self.size - 1 - i) as usize, y: i as usize }));
        }

        if self.all_marked(&main, mark) {
            return Some(main);
        }
        if self.all_marked(&anti, mark) {
            return Some(anti);
        }
        None
    }

    /// Given the coordinate that was just played with `mark`, the completed
    /// line through that point if one exists, else nothing. The axes are
    /// tried in a fixed order -- the column through `coord.x`, the row
    /// through `coord.y`, then, only when the coordinate lies on a
    /// diagonal, both diagonals -- and the first completed one is reported.
    pub fn is_win(&self, coord: Coord, mark: Mark) -> (r: Option<WinCoords>)
        requires
            self.wf(),
            self.in_bounds(coord),
        ensures
            match r {
                Some(v) => spec_win_line(*self, coord, mark) == Some(v@),
                None => spec_win_line(*self, coord, mark) is None,
            },
    {
        if let Some(v) = self.check_column(coord.x, mark) {
            return Some(v);
        }
        if let Some(v) = self.check_row(coord.y, mark) {
            return Some(v);
        }
        if coord.x == coord.y || coord.x == self.size - 1 - coord.y {
            self.check_diagonals(mark)
        } else {
            None
        }
    }
}

impl Default for Board {
    /// A blank board of the default side length, three.
    fn default() -> (b: Self)
        ensures
            b.wf(),
            b.size == 3,
            b.is_blank(),
    {
        Board::new(3)
    }
}

/// Every coordinate of each of the four candidate lines through `c` lies on
/// the board.
pub proof fn lemma_axis_coords_in_bounds(b: Board, c: Coord)
    requires
        b.wf(),
        b.in_bounds(c),
    ensures
        forall|i: int|
            0 <= i < column_coords(b.size, c.x).len() ==> b.in_bounds(
                #[trigger] column_coords(b.size, c.x)[i],
            ),
        forall|i: int|
            0 <= i < row_coords(b.size, c.y).len() ==> b.in_bounds(
                #[trigger] row_coords(b.size, c.y)[i],
            ),
        forall|i: int|
            0 <= i < main_diagonal_coords(b.size).len() ==> b.in_bounds(
                #[trigger] main_diagonal_coords(b.size)[i],
            ),
        forall|i: int|
            0 <= i < anti_diagonal_coords(b.size).len() ==> b.in_bounds(
                #[trigger] anti_diagonal_coords(b.size)[i],
            ),
{
    assert forall|i: int| 0 <= i < column_coords(b.size, c.x).len() implies b.in_bounds(
        #[trigger] column_coords(b.size, c.x)[i],
    ) by {
        assert(column_coords(b.size, c.x)[i] == (Coord { x: c.x, y: i as usize }));
    }
    assert forall|i: int| 0 <= i < row_coords(b.size, c.y).len() implies b.in_bounds(
        #[trigger] row_coords(b.size, c.y)[i],
    ) by {
        assert(row_coords(b.size, c.y)[i] == (Coord { x: i as usize, y: c.y }));
    }
    assert forall|i: int| 0 <= i < main_diagonal_coords(b.size).len() implies b.in_bounds(
        #[trigger] main_diagonal_coords(b.size)[i],
    ) by {
        assert(main_diagonal_coords(b.size)[i] == (Coord { x: i as usize, y: i as usize }));
    }
    assert forall|i: int| 0 <= i < anti_diagonal_coords(b.size).len() implies b.in_bounds(
        #[trigger] anti_diagonal_coords(b.size)[i],
    ) by {
        assert(anti_diagonal_coords(b.size)[i] == (Coord {
            x: (b.size - 1 - i) as usize,
            y: i as usize,
        }));
    }
}

/// Two boards that agree on the occupancy of every listed slot agree on
/// whether the whole line bears `mark`; the winning hints play no part.
proof fn lemma_line_marked_same_states(a: Board, b: Board, coords: Seq<Coord>, mark: Mark)
    requires
        forall|i: int| 0 <= i < coords.len() ==> a.in_bounds(#[trigger] coords[i]),
        forall|q: Coord|
            a.in_bounds(q) ==> (#[trigger] a.spec_cell(q)).state == b.spec_cell(q).state,
    ensures
        line_marked(a, coords, mark) == line_marked(b, coords, mark),
{
    if line_marked(a, coords, mark) {
        assert forall|i: int| 0 <= i < coords.len() implies (#[trigger] b.spec_cell(
            coords[i],
        )).state == CellState::Marked(mark) by {
            assert(a.in_bounds(coords[i]));
            assert(a.spec_cell(coords[i]).state == CellState::Marked(mark));
        }
    } else {
        let i = choose|i: int|
            0 <= i < coords.len() && (a.spec_cell(coords[i])).state != CellState::Marked(mark);
        assert(b.spec_cell(coords[i]).state != CellState::Marked(mark));
        assert(!line_marked(b, coords, mark));
    }
}

/// Two boards of the same size that agree on the occupancy of every slot
/// report the same winning line for the same just-played coordinate: the
/// winning hints and anything out of bounds play no part.
pub proof fn lemma_win_line_same_states(a: Board, b: Board, c: Coord, mark: Mark)
    requires
        a.wf(),
        a.in_bounds(c),
        a.size == b.size,
        forall|q: Coord|
            a.in_bounds(q) ==> (#[trigger] a.spec_cell(q)).state == b.spec_cell(q).state,
    ensures
        spec_win_line(a, c, mark) == spec_win_line(b, c, mark),
{
    lemma_axis_coords_in_bounds(a, c);
    lemma_line_marked_same_states(a, b, column_coords(a.size, c.x), mark);
    lemma_line_marked_same_states(a, b, row_coords(a.size, c.y), mark);
    lemma_line_marked_same_states(a, b, main_diagonal_coords(a.size), mark);
    lemma_line_marked_same_states(a, b, anti_diagonal_coords(a.size), mark);
}

/// Every coordinate of a reported winning line lies on the board.
pub proof fn lemma_win_line_in_bounds(b: Board, c: Coord, mark: Mark)
    requires
        b.wf(),
        b.in_bounds(c),
        spec_win_line(b, c, mark) is Some,
    ensures
        forall|i: int|
            0 <= i < spec_win_line(b, c, mark)->Some_0.len() ==> b.in_bounds(
                #[trigger] spec_win_line(b, c, mark)->Some_0[i],
            ),
{
    let line = spec_win_line(b, c, mark)->Some_0;
    assert forall|i: int| 0 <= i < line.len() implies b.in_bounds(#[trigger] line[i]) by {
        if line_marked(b, column_coords(b.size, c.x), mark) {
            assert(line[i] == (Coord { x: c.x, y: i as usize }));
        } else if line_marked(b, row_coords(b.size, c.y), mark) {
            assert(line[i] == (Coord { x: i as usize, y: c.y }));
        } else if on_diagonal(b.size, c) && line_marked(b, main_diagonal_coords(b.size), mark) {
            assert(line[i] == (Coord { x: i as usize, y: i as usize }));
        } else {
            assert(line[i] == (Coord { x: (b.size - 1 - i) as usize, y: i as usize }));
        }
    }
}

/// A completed column of `mark` through the just-played coordinate is always
/// the line reported for that coordinate.
pub proof fn lemma_win_reports_column(b: Board, c: Coord, mark: Mark)
    requires
        b.wf(),
        b.in_bounds(c),
        line_marked(b, column_coords(b.size, c.x), mark),
    ensures
        spec_win_line(b, c, mark) == Some(column_coords(b.size, c.x)),
{
}

/// A completed row of `mark` through the just-played coordinate is the line
/// reported for that coordinate, as long as the column through it is not
/// itself completed (the column is checked first).
pub proof fn lemma_win_reports_row(b: Board, c: Coord, mark: Mark)
    requires
        b.wf(),
        b.in_bounds(c),
        line_marked(b, row_coords(b.size, c.y), mark),
        !line_marked(b, column_coords(b.size, c.x), mark),
    ensures
        spec_win_line(b, c, mark) == Some(row_coords(b.size, c.y)),
{
}

/// A completed main diagonal of `mark` through the just-played coordinate is
/// the line reported for it, as long as neither the column nor the row
/// through that coordinate is completed (both are checked first).
pub proof fn lemma_win_reports_main_diagonal(b: Board, c: Coord, mark: Mark)
    requires
        b.wf(),
        b.in_bounds(c),
        c.x == c.y,
        line_marked(b, main_diagonal_coords(b.size), mark),
        !line_marked(b, column_coords(b.size, c.x), mark),
        !line_marked(b, row_coords(b.size, c.y), mark),
    ensures
        spec_win_line(b, c, mark) == Some(main_diagonal_coords(b.size)),
{
}

/// A completed anti-diagonal of `mark` through the just-played coordinate is
/// the line reported for it, as long as no earlier axis -- the column, the
/// row, the main diagonal -- is completed.
pub proof fn lemma_win_reports_anti_diagonal(b: Board, c: Coord, mark: Mark)
    requires
        b.wf(),
        b.in_bounds(c),
        c.x + c.y == b.size - 1,
        line_marked(b, anti_diagonal_coords(b.size), mark),
        !line_marked(b, column_coords(b.size, c.x), mark),
        !line_marked(b, row_coords(b.size, c.y), mark),
        !line_marked(b, main_diagonal_coords(b.size), mark),
    ensures
        spec_win_line(b, c, mark) == Some(anti_diagonal_coords(b.size)),
{
}

} // verus!
