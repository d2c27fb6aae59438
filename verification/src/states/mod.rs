pub mod game;
pub mod main_menu;

pub use game::Game;
pub use main_menu::MainMenu;

use vstd::prelude::*;

use crate::states::game::match_step;
use crate::states::main_menu::menu_step;

verus! {

/// One discrete keyboard event, as the screens see it. Everything the
/// terminal can produce is mapped to one of these before it reaches the
/// core; keys with no meaning map to `Other`.
#[derive(Copy, Clone, Debug, PartialEq, Eq, Structural)]
pub enum InputEvent {
    Up,
    Down,
    Left,
    Right,
    Confirm,
    Quit,
    Other,
}

/// What a screen hands back once it is finished: either the whole process is
/// done, or the named screen runs next.
#[derive(Debug)]
pub enum Transition {
    Next(Screen),
    Done,
}

/// The two interchangeable screens of the state machine. The driver loop
/// never needs to know which one is active.
#[derive(Debug)]
pub enum Screen {
    Menu(MainMenu),
    Match(Game),
}

/// What the driver must do after one event was handled: redraw and feed the
/// next event to the same screen; perform a transition at once; or redraw,
/// hold the frame for the post-win delay, then perform the transition.
#[derive(Debug)]
pub enum StepResult {
    Continue,
    Finished(Transition),
    FinishedAfterDelay(Transition),
}

impl Screen {
    pub open spec fn wf(self) -> bool {
        match self {
            Screen::Menu(m) => m.wf(),
            Screen::Match(g) => g.wf(),
        }
    }

    /// Feed one event to whichever screen is active.
    pub fn handle_event(&mut self, event: InputEvent) -> (r: StepResult)
        requires
            old(self).wf(),
        ensures
            final(self).wf(),
            *old(self) is Menu ==> *final(self) is Menu && menu_step(
                (*old(self))->Menu_0,
                event,
                (*final(self))->Menu_0,
                r,
            ),
            *old(self) is Match ==> *final(self) is Match && match_step(
                (*old(self))->Match_0,
                event,
                (*final(self))->Match_0,
                r,
            ),
    {
        match self {
            Screen::Menu(m) => m.handle_event(event),
            Screen::Match(g) => g.handle_event(event),
        }
    }

    /// The fallback transition a screen takes when the event stream ends
    /// without a quit, and -- for a finished match -- after the post-win
    /// delay.
    pub fn stream_end(&self) -> (t: Transition)
        requires
            self.wf(),
        ensures
            self is Menu ==> (t matches Transition::Next(Screen::Match(g)) && g.is_initial(
                self->Menu_0.board_size,
            )),
            self is Match ==> t == Transition::Next(
                Screen::Menu(MainMenu { board_size: crate::states::main_menu::DEFAULT_BOARD_SIZE }),
            ),
    {
        match self {
            Screen::Menu(m) => m.stream_end(),
            Screen::Match(g) => g.stream_end(),
        }
    }
}

} // verus!
