use vstd::prelude::*;

verus! {

/// A zero-based position on the board, bounded by the board's side length.
#[derive(Copy, Clone, Debug, PartialEq, Eq, Structural)]
pub struct Coord {
    pub x: usize,
    pub y: usize,
}

/// One of the four cursor movements.
#[derive(Copy, Clone, Debug, PartialEq, Eq, Structural)]
pub enum Direction {
    Up,
    Down,
    Left,
    Right,
}

/// Where a coordinate lands after one directional move on a grid of side
/// `grid_size`: one step along the axis, clamped to `[0, grid_size - 1]`.
/// A move against a boundary leaves the coordinate unchanged.
pub open spec fn spec_mv(c: Coord, direction: Direction, grid_size: usize) -> Coord {
    match direction {
        Direction::Up => if c.y > 0 { Coord { x: c.x, y: (c.y - 1) as usize } } else { c },
        Direction::Down => if c.y < grid_size - 1 { Coord { x: c.x, y: (c.y + 1) as usize } } else { c },
        Direction::Left => if c.x > 0 { Coord { x: (c.x - 1) as usize, y: c.y } } else { c },
        Direction::Right => if c.x < grid_size - 1 { Coord { x: (c.x + 1) as usize, y: c.y } } else { c },
    }
}

impl Coord {
    pub fn new(x: usize, y: usize) -> (c: Self)
        ensures
            c == (Coord { x, y }),
    {
        Coord { x, y }
    }

    /// Move one step in `direction`, clamped to the grid: a move against a
    /// boundary is a no-op, never an error and never a wraparound.
    pub fn mv(&mut self, direction: Direction, grid_size: usize)
        requires
            grid_size >= 1,
        ensures
            *final(self) == spec_mv(*old(self), direction, grid_size),
    {
        let upper_bound = grid_size - 1;

        match direction {
            Direction::Up => {
                if self.y > 0 {
                    self.y -= 1
                }
            },
            Direction::Down => {
                if self.y < upper_bound {
                    self.y += 1
                }
            },
            Direction::Left => {
                if self.x > 0 {
                    self.x -= 1
                }
            },
            Direction::Right => {
                if self.x < upper_bound {
                    self.x += 1
                }
            },
        };
    }
}

impl PartialEq<(usize, usize)> for Coord {
    /// A coordinate compares equal to the plain `(x, y)` pair it names, for
    /// ergonomic checks.
    fn eq(&self, other: &(usize, usize)) -> (r: bool) {
        self.x == other.0 && self.y == other.1
    }
}

impl vstd::std_specs::cmp::PartialEqSpecImpl<(usize, usize)> for Coord {
    open spec fn obeys_eq_spec() -> bool {
        true
    }

    open spec fn eq_spec(&self, other: &(usize, usize)) -> bool {
        self.x == other.0 && self.y == other.1
    }
}

impl Default for Coord {
    /// The top-left corner of the board.
    fn default() -> (c: Self)
        ensures
            c == (Coord { x: 0, y: 0 }),
    {
        Coord { x: 0, y: 0 }
    }
}

/// On every board size in `[2, 5]`, a directional move never produces a
/// coordinate outside `[0, n - 1] x [0, n - 1]`.
pub proof fn lemma_mv_in_bounds(c: Coord, direction: Direction, n: usize)
    requires
        2 <= n <= 5,
        c.x < n,
        c.y < n,
    ensures
        spec_mv(c, direction, n).x < n,
        spec_mv(c, direction, n).y < n,
{
}

} // verus!
