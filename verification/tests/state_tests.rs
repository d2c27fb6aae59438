use noughts_and_crosses::cell::CellState;
use noughts_and_crosses::coord::Coord;
use noughts_and_crosses::mark::Mark;
use noughts_and_crosses::states::game::Game;
use noughts_and_crosses::states::main_menu::MainMenu;
use noughts_and_crosses::states::{InputEvent, Screen, StepResult, Transition};

fn play_at(g: &mut Game, x: usize, y: usize) {
    g.cursor = Coord::new(x, y);
    g.play();
}

#[test]
fn a_fresh_match_is_blank() {
    let g = Game::new(5);
    assert_eq!(g.board.size, 5);
    assert_eq!(g.cursor, Coord::new(0, 0));
    assert_eq!(g.mark, Mark::Nought);
    assert_eq!(g.winner, None);
    assert!(matches!(g.board.cell_at(Coord::new(4, 4)).state, CellState::Empty));
}

#[test]
fn playing_marks_the_slot_and_passes_the_turn() {
    let mut g = Game::new(3);
    play_at(&mut g, 1, 2);
    assert_eq!(g.board.cell_at(Coord::new(1, 2)).state, CellState::Marked(Mark::Nought));
    assert_eq!(g.mark, Mark::Cross);
    assert_eq!(g.winner, None);
}

#[test]
fn playing_an_occupied_slot_changes_nothing() {
    let mut g = Game::new(3);
    play_at(&mut g, 0, 0);
    assert_eq!(g.board.cell_at(Coord::new(0, 0)).state, CellState::Marked(Mark::Nought));
    assert_eq!(g.mark, Mark::Cross);
    // the same slot again: the board keeps its one nought, the turn stays
    play_at(&mut g, 0, 0);
    assert_eq!(g.board.cell_at(Coord::new(0, 0)).state, CellState::Marked(Mark::Nought));
    assert_eq!(g.mark, Mark::Cross);
    assert_eq!(g.winner, None);
    let mut y: usize = 0;
    while y < 3 {
        let mut x: usize = 0;
        while x < 3 {
            if !(x == 0 && y == 0) {
                assert_eq!(g.board.cell_at(Coord::new(x, y)).state, CellState::Empty);
            }
            x += 1;
        }
        y += 1;
    }
}

#[test]
fn column_win_on_a_three_board() {
    // moves in (row, column) order: (0,0) (1,1) (1,0) (1,2) (2,0), crosses
    // first; crosses complete the column x = 0
    let mut g = Game::new(3);
    g.mark = Mark::Cross;
    play_at(&mut g, 0, 0); // cross
    play_at(&mut g, 1, 1); // nought
    play_at(&mut g, 0, 1); // cross
    play_at(&mut g, 2, 1); // nought
    play_at(&mut g, 0, 2); // cross
    assert_eq!(g.winner, Some(Mark::Cross));
    assert!(g.board.cell_at(Coord::new(0, 0)).winning);
    assert!(g.board.cell_at(Coord::new(0, 1)).winning);
    assert!(g.board.cell_at(Coord::new(0, 2)).winning);
    assert!(!g.board.cell_at(Coord::new(1, 1)).winning);
    assert!(!g.board.cell_at(Coord::new(2, 1)).winning);
    // the winning mark stays the current mark
    assert_eq!(g.mark, Mark::Cross);
}

#[test]
fn five_events_after_a_win_change_nothing() {
    let mut g = Game::new(2);
    g.mark = Mark::Cross;
    play_at(&mut g, 0, 0); // cross
    play_at(&mut g, 1, 1); // nought
    g.cursor = Coord::new(0, 1);
    let r = g.handle_event(InputEvent::Confirm); // cross completes column x = 0
    assert_eq!(g.winner, Some(Mark::Cross));
    assert!(matches!(
        r,
        StepResult::FinishedAfterDelay(Transition::Next(Screen::Menu(MainMenu { board_size: 3 })))
    ));
    let events = [
        InputEvent::Up,
        InputEvent::Down,
        InputEvent::Confirm,
        InputEvent::Left,
        InputEvent::Confirm,
    ];
    let mut i: usize = 0;
    while i < events.len() {
        let r = g.handle_event(events[i]);
        assert!(matches!(r, StepResult::FinishedAfterDelay(_)));
        i += 1;
    }
    assert_eq!(g.winner, Some(Mark::Cross));
    assert_eq!(g.cursor, Coord::new(0, 1));
    assert_eq!(g.board.cell_at(Coord::new(0, 0)).state, CellState::Marked(Mark::Cross));
    assert_eq!(g.board.cell_at(Coord::new(0, 1)).state, CellState::Marked(Mark::Cross));
    assert_eq!(g.board.cell_at(Coord::new(1, 1)).state, CellState::Marked(Mark::Nought));
    assert_eq!(g.board.cell_at(Coord::new(1, 0)).state, CellState::Empty);
    assert!(g.board.cell_at(Coord::new(0, 0)).winning);
    assert!(g.board.cell_at(Coord::new(0, 1)).winning);
}

#[test]
fn quit_still_works_after_a_win() {
    let mut g = Game::new(2);
    g.mark = Mark::Cross;
    play_at(&mut g, 0, 0); // cross
    play_at(&mut g, 1, 1); // nought
    play_at(&mut g, 0, 1); // cross completes column x = 0
    assert_eq!(g.winner, Some(Mark::Cross));
    let r = g.handle_event(InputEvent::Quit);
    assert!(matches!(r, StepResult::Finished(Transition::Done)));
    assert_eq!(g.winner, Some(Mark::Cross));
    assert_eq!(g.board.cell_at(Coord::new(0, 0)).state, CellState::Marked(Mark::Cross));
}

#[test]
fn quit_ends_the_match_at_once() {
    let mut g = Game::new(3);
    play_at(&mut g, 0, 0);
    let r = g.handle_event(InputEvent::Quit);
    assert!(matches!(r, StepResult::Finished(Transition::Done)));
    // nothing was touched on the way out
    assert_eq!(g.board.cell_at(Coord::new(0, 0)).state, CellState::Marked(Mark::Nought));
    assert_eq!(g.winner, None);
}

#[test]
fn directional_events_move_the_cursor_with_clamping() {
    let mut g = Game::new(2);
    assert!(matches!(g.handle_event(InputEvent::Up), StepResult::Continue));
    assert_eq!(g.cursor, Coord::new(0, 0));
    assert!(matches!(g.handle_event(InputEvent::Right), StepResult::Continue));
    assert_eq!(g.cursor, Coord::new(1, 0));
    assert!(matches!(g.handle_event(InputEvent::Right), StepResult::Continue));
    assert_eq!(g.cursor, Coord::new(1, 0));
    assert!(matches!(g.handle_event(InputEvent::Down), StepResult::Continue));
    assert_eq!(g.cursor, Coord::new(1, 1));
    assert!(matches!(g.handle_event(InputEvent::Other), StepResult::Continue));
    assert_eq!(g.cursor, Coord::new(1, 1));
    assert!(matches!(g.handle_event(InputEvent::Left), StepResult::Continue));
    assert_eq!(g.cursor, Coord::new(0, 1));
}

#[test]
fn the_cursor_slot_is_highlighted_until_a_win() {
    let mut g = Game::new(3);
    assert!(g.cell_highlighted(0, 0));
    assert!(!g.cell_highlighted(1, 0));
    g.mark = Mark::Cross;
    play_at(&mut g, 0, 0);
    play_at(&mut g, 1, 1);
    play_at(&mut g, 0, 1);
    play_at(&mut g, 2, 2);
    play_at(&mut g, 0, 2); // cross completes column x = 0
    assert_eq!(g.winner, Some(Mark::Cross));
    assert!(g.cell_highlighted(0, 0));
    assert!(g.cell_highlighted(0, 1));
    assert!(g.cell_highlighted(0, 2));
    assert!(!g.cell_highlighted(1, 1));
    assert!(!g.cell_highlighted(2, 2));
}

#[test]
fn menu_size_never_leaves_its_bounds() {
    let mut m = MainMenu::default();
    assert_eq!(m.board_size, 3);
    let mut i: usize = 0;
    while i < 7 {
        m.handle_event(InputEvent::Up);
        assert!(m.board_size <= 5);
        i += 1;
    }
    assert_eq!(m.board_size, 5);
    let mut i: usize = 0;
    while i < 9 {
        m.handle_event(InputEvent::Down);
        assert!(m.board_size >= 2);
        i += 1;
    }
    assert_eq!(m.board_size, 2);
}

#[test]
fn menu_confirm_starts_a_match_of_the_chosen_size() {
    let mut m = MainMenu::default();
    m.handle_event(InputEvent::Up);
    assert_eq!(m.board_size, 4);
    let r = m.handle_event(InputEvent::Confirm);
    match r {
        StepResult::Finished(Transition::Next(Screen::Match(g))) => {
            assert_eq!(g.board.size, 4);
            assert_eq!(g.mark, Mark::Nought);
            assert_eq!(g.cursor, Coord::new(0, 0));
            assert_eq!(g.winner, None);
        },
        _ => panic!("confirm must start a match"),
    }
    assert_eq!(m.board_size, 4);
}

#[test]
fn menu_quit_ends_the_process() {
    let mut m = MainMenu::default();
    let r = m.handle_event(InputEvent::Quit);
    assert!(matches!(r, StepResult::Finished(Transition::Done)));
    assert_eq!(m.board_size, 3);
}

#[test]
fn menu_ignores_unknown_events() {
    let mut m = MainMenu::default();
    let r = m.handle_event(InputEvent::Other);
    assert!(matches!(r, StepResult::Continue));
    let r = m.handle_event(InputEvent::Left);
    assert!(matches!(r, StepResult::Continue));
    assert_eq!(m.board_size, 3);
}

#[test]
fn the_screen_dispatches_to_whichever_state_is_active() {
    let mut s = Screen::Menu(MainMenu::default());
    assert!(matches!(s.handle_event(InputEvent::Up), StepResult::Continue));
    match &s {
        Screen::Menu(m) => assert_eq!(m.board_size, 4),
        _ => panic!("the menu must stay active"),
    }
    let r = s.handle_event(InputEvent::Confirm);
    match r {
        StepResult::Finished(Transition::Next(next)) => {
            s = next;
        },
        _ => panic!("confirm must hand over a match"),
    }
    assert!(matches!(s.handle_event(InputEvent::Quit), StepResult::Finished(Transition::Done)));
}

#[test]
fn exhausted_streams_fall_back_to_the_next_screen() {
    let m = MainMenu { board_size: 5 };
    match m.stream_end() {
        Transition::Next(Screen::Match(g)) => assert_eq!(g.board.size, 5),
        _ => panic!("the menu must start a match"),
    }
    let g = Game::new(4);
    match g.stream_end() {
        Transition::Next(Screen::Menu(next)) => assert_eq!(next.board_size, 3),
        _ => panic!("a match must hand back a fresh menu"),
    }
}
