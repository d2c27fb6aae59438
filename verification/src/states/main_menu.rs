use vstd::prelude::*;
use vstd::string::StringExecFns;

use crate::ascii_box::{
    grapheme_count_of, line_views, max_width, render_box, AsciiBox,
};
use crate::states::game::Game;
use crate::states::{InputEvent, Screen, StepResult, Transition};

verus! {

/// The smallest board the menu offers.
pub const MIN_BOARD_SIZE: usize = 2;

/// The largest board the menu offers.
pub const MAX_BOARD_SIZE: usize = 5;

/// The board size a fresh menu starts with.
pub const DEFAULT_BOARD_SIZE: usize = 3;

/// The configuration screen: the player picks a board size, bounded to
/// `[MIN_BOARD_SIZE, MAX_BOARD_SIZE]`, before a match starts.
#[derive(Debug)]
pub struct MainMenu {
    pub board_size: usize,
}

/// How one handled event relates the menu before to the menu after, together
/// with what the driver is told to do: Up and Down adjust the size inside
/// its bounds and redraw, Confirm starts a fresh match of the chosen size,
/// Quit ends the process at once, and every other event only redraws.
pub open spec fn menu_step(pre: MainMenu, event: InputEvent, post: MainMenu, r: StepResult) -> bool {
    match event {
        InputEvent::Up => {
            &&& post == (MainMenu {
                board_size: if pre.board_size != MAX_BOARD_SIZE {
                    (pre.board_size + 1) as usize
                } else {
                    pre.board_size
                },
            })
            &&& r is Continue
        },
        InputEvent::Down => {
            &&& post == (MainMenu {
                board_size: if pre.board_size != MIN_BOARD_SIZE {
                    (pre.board_size - 1) as usize
                } else {
                    pre.board_size
                },
            })
            &&& r is Continue
        },
        InputEvent::Confirm => {
            &&& post == pre
            &&& r matches StepResult::Finished(Transition::Next(Screen::Match(g)))
                && g.is_initial(pre.board_size)
        },
        InputEvent::Quit => {
            &&& post == pre
            &&& r == StepResult::Finished(Transition::Done)
        },
        _ => {
            &&& post == pre
            &&& r is Continue
        },
    }
}

impl MainMenu {
    /// The menu's invariant: the offered size stays inside its bounds.
    pub open spec fn wf(self) -> bool {
        MIN_BOARD_SIZE <= self.board_size <= MAX_BOARD_SIZE
    }

    /// Handle one event as `menu_step` describes.
    pub fn handle_event(&mut self, event: InputEvent) -> (r: StepResult)
        requires
            old(self).wf(),
        ensures
            final(self).wf(),
            menu_step(*old(self), event, *final(self), r),
    {
        match event {
            InputEvent::Up => {
                if self.board_size != MAX_BOARD_SIZE {
                    self.board_size += 1;
                }
                StepResult::Continue
            },
            InputEvent::Down => {
                if self.board_size != MIN_BOARD_SIZE {
                    self.board_size -= 1;
                }
                StepResult::Continue
            },
            InputEvent::Confirm => StepResult::Finished(
                Transition::Next(Screen::Match(Game::new(self.board_size))),
            ),
            InputEvent::Quit => StepResult::Finished(Transition::Done),
            _ => StepResult::Continue,
        }
    }

    /// The fallback when the event stream ends without a quit: start a match
    /// of the chosen size, exactly as Confirm would.
    pub fn stream_end(&self) -> (t: Transition)
        requires
            self.wf(),
        ensures
            t matches Transition::Next(Screen::Match(g)) && g.is_initial(self.board_size),
    {
        Transition::Next(Screen::Match(Game::new(self.board_size)))
    }
}

/// The six lines of the menu's help panel, in the order they are shown.
pub open spec fn menu_control_lines() -> Seq<Seq<char>> {
    seq![
        "\u{2191} Move cursor up"@,
        "\u{2193}             down"@,
        "\u{2190}             left"@,
        "\u{2192}             right"@,
        "\u{21b5} Play"@,
        "q Quit"@,
    ]
}

/// The display width of the menu's help panel: the widest of its six lines.
pub open spec fn menu_controls_width() -> nat {
    max_width(
        max_width(
            max_width(
                max_width(
                    max_width(
                        max_width(0, grapheme_count_of(menu_control_lines()[0])),
                        grapheme_count_of(menu_control_lines()[1]),
                    ),
                    grapheme_count_of(menu_control_lines()[2]),
                ),
                grapheme_count_of(menu_control_lines()[3]),
            ),
            grapheme_count_of(menu_control_lines()[4]),
        ),
        grapheme_count_of(menu_control_lines()[5]),
    )
}

/// The menu's help panel as text: the six control lines boxed under the
/// `Controls` heading.
pub open spec fn menu_controls_box() -> Seq<char> {
    render_box(
        menu_control_lines().map(|i: int, s: Seq<char>| (grapheme_count_of(s), s)),
        menu_controls_width(),
        "Controls"@,
    )
}

/// The digit the menu shows for its bounded size choice.
pub open spec fn size_digit(size: usize) -> Seq<char> {
    if size == 2 {
        "2"@
    } else if size == 3 {
        "3"@
    } else if size == 4 {
        "4"@
    } else {
        "5"@
    }
}

/// The lines shown under the help panel: the chosen board size and the
/// start hint.
pub open spec fn menu_status_text(size: usize) -> Seq<char> {
    "\r\nBoard size: "@ + size_digit(size)
        + " (use \u{2191} or \u{2193} to change)\r\nPress \u{21b5} to start\r\n"@
}

impl MainMenu {
    /// The menu's help panel, exactly as the menu draws it.
    pub fn controls_text() -> (out: String)
        ensures
            out@ == menu_controls_box(),
    {
        let mut controls = AsciiBox::default();
        controls.add_line("\u{2191} Move cursor up");
        controls.add_line("\u{2193}             down");
        controls.add_line("\u{2190}             left");
        controls.add_line("\u{2192}             right");
        controls.add_line("\u{21b5} Play");
        controls.add_line("q Quit");
        let out = controls.print("Controls");
        proof {
            assert(line_views(controls.lines@) =~= menu_control_lines().map(
                |i: int, s: Seq<char>| (grapheme_count_of(s), s),
            ));
            assert(controls.width as nat == menu_controls_width());
        }
        out
    }

    /// The text under the help panel, exactly as the menu draws it.
    pub fn status_text(&self) -> (out: String)
        requires
            self.wf(),
        ensures
            out@ == menu_status_text(self.board_size),
    {
        let mut out = String::new();
        out.append("\r\nBoard size: ");
        if self.board_size == 2 {
            out.append("2");
        } else if self.board_size == 3 {
            out.append("3");
        } else if self.board_size == 4 {
            out.append("4");
        } else {
            out.append("5");
        }
        out.append(" (use \u{2191} or \u{2193} to change)\r\nPress \u{21b5} to start\r\n");
        assert(out@ =~= menu_status_text(self.board_size));
        out
    }
}

impl Default for MainMenu {
    fn default() -> (m: Self)
        ensures
            m == (MainMenu { board_size: DEFAULT_BOARD_SIZE }),
            m.wf(),
    {
        MainMenu { board_size: DEFAULT_BOARD_SIZE }
    }
}

/// A quit event ends the process at once: the menu is left untouched and
/// the transition is `Done`, with nothing further to draw.
pub proof fn lemma_quit_ends_menu(pre: MainMenu, post: MainMenu, r: StepResult)
    requires
        menu_step(pre, InputEvent::Quit, post, r),
    ensures
        post == pre,
        r == StepResult::Finished(Transition::Done),
{
}

/// However many events the menu handles, the board size never exceeds
/// `MAX_BOARD_SIZE` nor drops below `MIN_BOARD_SIZE`: one handled event
/// keeps the bound, so any run of Up and Down events does too.
pub proof fn lemma_menu_size_bounded(pre: MainMenu, event: InputEvent, post: MainMenu, r: StepResult)
    requires
        pre.wf(),
        menu_step(pre, event, post, r),
    ensures
        MIN_BOARD_SIZE <= post.board_size <= MAX_BOARD_SIZE,
{
}

} // verus!
