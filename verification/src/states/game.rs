use vstd::prelude::*;

use crate::board::{spec_win_line, Board};
use crate::cell::{Cell, CellState};
use crate::coord::{spec_mv, Coord, Direction};
use crate::mark::Mark;
use crate::states::main_menu::{MainMenu, DEFAULT_BOARD_SIZE};
use crate::states::{InputEvent, Screen, StepResult, Transition};

verus! {

/// One match in progress: the board, the cursor, whose turn it is, and the
/// winner once a winning move has been played.
#[derive(Debug)]
pub struct Game {
    pub board: Board,
    pub cursor: Coord,
    pub mark: Mark,
    pub winner: Option<Mark>,
}

/// How one attempted play relates the match before to the match after: a
/// play on an occupied slot changes nothing; otherwise the slot under the
/// cursor takes the current mark and, if that completes a line through the
/// cursor, the player is recorded as winner and every slot of the line gets
/// its winning hint, else the turn passes to the other player. A full board
/// with no winner is not detected: every further play is a no-op and the
/// match only ends through a quit or the end of the event stream.
pub open spec fn play_rel(pre: Game, post: Game) -> bool {
    if pre.board.spec_cell(pre.cursor).state is Marked {
        post == pre
    } else {
        &&& post.cursor == pre.cursor
        &&& post.board.size == pre.board.size
        &&& post.board.cells@.len() == pre.board.cells@.len()
        &&& forall|y: int|
            0 <= y < pre.board.cells@.len() ==> (#[trigger] post.board.cells@[y])@.len()
                == pre.board.cells@[y]@.len()
        &&& post.board.spec_cell(pre.cursor).state == CellState::Marked(pre.mark)
        &&& forall|c: Coord|
            pre.board.in_bounds(c) && c != pre.cursor ==> (#[trigger] post.board.spec_cell(
                c,
            )).state == pre.board.spec_cell(c).state
        &&& match spec_win_line(post.board, pre.cursor, pre.mark) {
            Some(line) => {
                &&& post.winner == Some(pre.mark)
                &&& post.mark == pre.mark
                &&& forall|c: Coord|
                    pre.board.in_bounds(c) ==> (#[trigger] post.board.spec_cell(c)).winning == (
                    pre.board.spec_cell(c).winning || line.contains(c))
            },
            None => {
                &&& post.winner == pre.winner
                &&& post.mark == pre.mark.spec_other()
                &&& forall|c: Coord|
                    pre.board.in_bounds(c) ==> (#[trigger] post.board.spec_cell(c)).winning
                        == pre.board.spec_cell(c).winning
            },
        }
    }
}

/// A directional event moves the cursor one clamped step and redraws;
/// nothing else of the match changes.
pub open spec fn moved_step(pre: Game, d: Direction, post: Game, r: StepResult) -> bool {
    &&& post.board == pre.board
    &&& post.mark == pre.mark
    &&& post.winner == pre.winner
    &&& post.cursor == spec_mv(pre.cursor, d, pre.board.size)
    &&& r is Continue
}

/// How one handled event relates the match before to the match after,
/// together with what the driver is told to do. Once a winner is recorded
/// the state is frozen: every further event leaves the board, the cursor and
/// the winner untouched, and only the transition back to a fresh menu is
/// offered again.
pub open spec fn match_step(pre: Game, event: InputEvent, post: Game, r: StepResult) -> bool {
    if pre.winner is Some {
        &&& post == pre
        &&& r == if event is Quit {
            StepResult::Finished(Transition::Done)
        } else {
            StepResult::FinishedAfterDelay(
                Transition::Next(Screen::Menu(MainMenu { board_size: DEFAULT_BOARD_SIZE })),
            )
        }
    } else {
        match event {
            InputEvent::Quit => post == pre && r == StepResult::Finished(Transition::Done),
            InputEvent::Up => moved_step(pre, Direction::Up, post, r),
            InputEvent::Down => moved_step(pre, Direction::Down, post, r),
            InputEvent::Left => moved_step(pre, Direction::Left, post, r),
            InputEvent::Right => moved_step(pre, Direction::Right, post, r),
            InputEvent::Confirm => {
                &&& play_rel(pre, post)
                &&& r == if post.winner is Some {
                    StepResult::FinishedAfterDelay(
                        Transition::Next(Screen::Menu(MainMenu { board_size: DEFAULT_BOARD_SIZE })),
                    )
                } else {
                    StepResult::Continue
                }
            },
            InputEvent::Other => post == pre && r is Continue,
        }
    }
}

/// When a prefix of a line misses a coordinate, extending the prefix by a
/// slot that is not that coordinate cannot add it.
proof fn lemma_prefix_extend(coords: Seq<Coord>, c: Coord, i: int)
    requires
        0 <= i < coords.len(),
        coords[i] != c,
    ensures
        (exists|j: int| 0 <= j < i + 1 && coords[j] == c) <==> (exists|j: int|
            0 <= j < i && coords[j] == c),
{
    if exists|j: int| 0 <= j < i + 1 && coords[j] == c {
        let j = choose|j: int| 0 <= j < i + 1 && coords[j] == c;
        assert(j != i);
        assert(0 <= j < i && coords[j] == c);
    }
}

impl Game {
    /// The match invariant: the board keeps its shape and the cursor lies on
    /// it.
    pub open spec fn wf(self) -> bool {
        &&& self.board.wf()
        &&& self.cursor.x < self.board.size
        &&& self.cursor.y < self.board.size
    }

    /// A freshly started match: a blank board of side `size`, the cursor in
    /// the top-left corner, noughts to play, no winner.
    pub open spec fn is_initial(self, size: usize) -> bool {
        &&& self.board.wf()
        &&& self.board.size == size
        &&& self.board.is_blank()
        &&& self.cursor == (Coord { x: 0, y: 0 })
        &&& self.mark == Mark::Nought
        &&& self.winner is None
    }

    /// Start a match on a blank board of side `board_size`.
    pub fn new(board_size: usize) -> (g: Game)
        requires
            board_size >= 1,
        ensures
            g.wf(),
            g.is_initial(board_size),
    {
        Game {
            board: Board::new(board_size),
            cursor: Coord::default(),
            mark: Mark::default(),
            winner: None,
        }
    }

    /// Attempt to play the slot under the cursor, as `play_rel` describes.
    pub fn play(&mut self)
        requires
            old(self).wf(),
        ensures
            final(self).wf(),
            play_rel(*old(self), *final(self)),
    {
        let ghost pre = *old(self);
        let cur = self.cursor;
        if self.board.cell_at(cur).state.is_marked() {
            return;
        }
        let mark_now = self.mark;
        let cell = self.board.cell_at_mut(cur);
        cell.state = CellState::Marked(mark_now);

        let ghost mid = self.board;
        proof {
            assert forall|c: Coord| pre.board.in_bounds(c) implies #[trigger] mid.spec_cell(c) == (
            if c == cur {
                Cell { state: CellState::Marked(pre.mark), winning: pre.board.spec_cell(c).winning }
            } else {
                pre.board.spec_cell(c)
            }) by {
                if c.y == cur.y {
                    assert(mid.cells@[c.y as int]@ == pre.board.cells@[cur.y as int]@.update(
                        cur.x as int,
                        Cell {
                            state: CellState::Marked(pre.mark),
                            winning: pre.board.spec_cell(cur).winning,
                        },
                    ));
                } else {
                    assert(mid.cells@[c.y as int] == pre.board.cells@[c.y as int]);
                }
            }
            assert forall|y: int| 0 <= y < mid.cells@.len() implies (#[trigger] mid.cells@[y])@.len()
                == mid.size by {
                if y == cur.y as int {
                    assert(mid.cells@[y]@.len() == pre.board.cells@[y]@.len());
                } else {
                    assert(mid.cells@[y] == pre.board.cells@[y]);
                }
            }
            assert(mid.wf());
        }

        match self.board.is_win(cur, mark_now) {
            Some(coords) => {
                self.winner = Some(mark_now);
                proof {
                    crate::board::lemma_win_line_in_bounds(mid, cur, mark_now);
                }
                let mut i: usize = 0;
                while i < coords.len()
                    invariant
                        i <= coords@.len(),
                        mid.wf(),
                        mid.in_bounds(cur),
                        self.board.wf(),
                        self.board.size == mid.size,
                        self.board.cells@.len() == mid.cells@.len(),
                        forall|y: int|
                            0 <= y < mid.cells@.len() ==> (#[trigger] self.board.cells@[y])@.len()
                                == mid.cells@[y]@.len(),
                        spec_win_line(mid, cur, mark_now) == Some(coords@),
                        forall|j: int|
                            0 <= j < coords@.len() ==> mid.in_bounds(#[trigger] coords@[j]),
                        forall|c: Coord|
                            mid.in_bounds(c) ==> (#[trigger] self.board.spec_cell(c)).state
                                == mid.spec_cell(c).state,
                        forall|c: Coord|
                            mid.in_bounds(c) ==> (#[trigger] self.board.spec_cell(c)).winning == (
                            mid.spec_cell(c).winning || exists|j: int|
                                0 <= j < i && coords@[j] == c),
                        self.winner == Some(mark_now),
                        self.mark == mark_now,
                        self.cursor == cur,
                    decreases coords@.len() - i,
                {
                    let co = coords[i];
                    let ghost prev = self.board;
                    let cellw = self.board.cell_at_mut(co);
                    cellw.winning = true;
                    proof {
                        assert forall|c: Coord| mid.in_bounds(c) implies #[trigger] self.board.spec_cell(
                            c,
                        ) == (if c == co {
                            Cell { state: prev.spec_cell(c).state, winning: true }
                        } else {
                            prev.spec_cell(c)
                        }) by {
                            if c.y == co.y {
                                assert(self.board.cells@[c.y as int]@
                                    == prev.cells@[co.y as int]@.update(
                                    co.x as int,
                                    Cell { state: prev.spec_cell(co).state, winning: true },
                                ));
                            } else {
                                assert(self.board.cells@[c.y as int] == prev.cells@[c.y as int]);
                            }
                        }
                        assert forall|c: Coord| mid.in_bounds(c) implies (
                        #[trigger] self.board.spec_cell(c)).winning == (mid.spec_cell(c).winning
                            || exists|j: int| 0 <= j < i + 1 && coords@[j] == c) by {
                            if c == co {
                                assert(coords@[i as int] == c);
                                assert(exists|j: int| 0 <= j < i + 1 && coords@[j] == c);
                            } else {
                                lemma_prefix_extend(coords@, c, i as int);
                            }
                        }
                        assert forall|y: int| 0 <= y < mid.cells@.len() implies (
                        #[trigger] self.board.cells@[y])@.len() == mid.cells@[y]@.len() by {
                            if y == co.y as int {
                                assert(self.board.cells@[y]@.len() == prev.cells@[y]@.len());
                            } else {
                                assert(self.board.cells@[y] == prev.cells@[y]);
                            }
                        }
                    }
                    i += 1;
                }
                proof {
                    crate::board::lemma_win_line_same_states(mid, self.board, cur, mark_now);
                    assert forall|c: Coord| pre.board.in_bounds(c) implies (
                    #[trigger] self.board.spec_cell(c)).winning == (pre.board.spec_cell(c).winning
                        || coords@.contains(c)) by {
                        assert(mid.spec_cell(c).winning == pre.board.spec_cell(c).winning);
                        assert((exists|j: int| 0 <= j < i && coords@[j] == c)
                            == coords@.contains(c));
                    }
                }
            },
            None => {
                self.mark = self.mark.other();
                proof {
                    crate::board::lemma_win_line_same_states(mid, self.board, cur, mark_now);
                }
            },
        }
    }

    /// Handle one event as `match_step` describes.
    pub fn handle_event(&mut self, event: InputEvent) -> (r: StepResult)
        requires
            old(self).wf(),
        ensures
            final(self).wf(),
            match_step(*old(self), event, *final(self), r),
    {
        if self.winner.is_some() {
            if let InputEvent::Quit = event {
                return StepResult::Finished(Transition::Done);
            }
            return StepResult::FinishedAfterDelay(
                Transition::Next(Screen::Menu(MainMenu::default())),
            );
        }
        let size = self.board.size;
        match event {
            InputEvent::Quit => StepResult::Finished(Transition::Done),
            InputEvent::Up => {
                self.cursor.mv(Direction::Up, size);
                StepResult::Continue
            },
            InputEvent::Down => {
                self.cursor.mv(Direction::Down, size);
                StepResult::Continue
            },
            InputEvent::Left => {
                self.cursor.mv(Direction::Left, size);
                StepResult::Continue
            },
            InputEvent::Right => {
                self.cursor.mv(Direction::Right, size);
                StepResult::Continue
            },
            InputEvent::Confirm => {
                self.play();
                if self.winner.is_some() {
                    StepResult::FinishedAfterDelay(
                        Transition::Next(Screen::Menu(MainMenu::default())),
                    )
                } else {
                    StepResult::Continue
                }
            },
            InputEvent::Other => StepResult::Continue,
        }
    }

    /// After the post-win delay, or when the event stream ends, a match
    /// hands control back to a fresh menu.
    pub fn stream_end(&self) -> (t: Transition)
        ensures
            t == Transition::Next(Screen::Menu(MainMenu { board_size: DEFAULT_BOARD_SIZE })),
    {
        Transition::Next(Screen::Menu(MainMenu::default()))
    }

    /// Whether the slot at `(x, y)` is drawn highlighted: the winning line
    /// once a winner is recorded, the cursor slot before that.
    pub fn cell_highlighted(&self, x: usize, y: usize) -> (b: bool)
        requires
            self.wf(),
            x < self.board.size,
            y < self.board.size,
        ensures
            b == (if self.winner is Some {
                self.board.spec_cell(Coord { x, y }).winning
            } else {
                self.cursor == (Coord { x, y })
            }),
    {
        if self.winner.is_some() {
            self.board.cell_at(Coord::new(x, y)).winning
        } else {
            self.cursor.x == x && self.cursor.y == y
        }
    }
}

/// Attempting to play an occupied slot changes nothing of the match: the
/// illegal move is a silent no-op, never an error.
pub proof fn lemma_illegal_play_is_noop(pre: Game, post: Game)
    requires
        pre.board.spec_cell(pre.cursor).state is Marked,
        play_rel(pre, post),
    ensures
        post == pre,
{
}

/// A quit event ends the process at once, in any match state: the match is
/// left untouched and the transition is `Done`, with nothing further to
/// draw.
pub proof fn lemma_quit_ends_match(pre: Game, post: Game, r: StepResult)
    requires
        match_step(pre, InputEvent::Quit, post, r),
    ensures
        post == pre,
        r == StepResult::Finished(Transition::Done),
{
}

/// Once a winner is recorded the match is frozen: whatever events still
/// arrive before the transition runs, the board, the cursor and the winner
/// stay exactly as the winning move left them.
pub proof fn lemma_match_frozen_after_win(pre: Game, event: InputEvent, post: Game, r: StepResult)
    requires
        pre.winner is Some,
        match_step(pre, event, post, r),
    ensures
        post == pre,
{
}

/// The single glyph drawn at the centre of a slot: a cross, a large circle,
/// or a blank for an empty slot.
pub fn marker_glyph(state: CellState) -> (s: &'static str)
    ensures
        state == CellState::Marked(Mark::Cross) ==> s@ == "\u{2715}"@,
        state == CellState::Marked(Mark::Nought) ==> s@ == "\u{25EF}"@,
        state is Empty ==> s@ == " "@,
{
    match state {
        CellState::Marked(Mark::Cross) => "\u{2715}",
        CellState::Marked(Mark::Nought) => "\u{25EF}",
        CellState::Empty => " ",
    }
}

impl Default for Game {
    /// A fresh match on a board of the default side length.
    fn default() -> (g: Self)
        ensures
            g.wf(),
            g.is_initial(DEFAULT_BOARD_SIZE),
    {
        Game::new(DEFAULT_BOARD_SIZE)
    }
}

} // verus!
