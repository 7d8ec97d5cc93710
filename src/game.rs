use vstd::prelude::*;

use crate::board::{start_cell, Board, Direction};
use crate::menu::MenuState;
use crate::rules::cell;

verus! {

/// The screen the game shows.
#[derive(Debug, Clone, Copy, PartialEq, Eq, Structural)]
pub enum CurrentScreen {
    Menu,
    Game,
    Exit,
}

/// A session: whether it still runs, the board, the screen shown and the
/// menu's state.
pub struct Game {
    pub is_running: bool,
    pub board: Board,
    pub current_screen: CurrentScreen,
    pub menu_state: MenuState,
}

impl Game {
    pub open spec fn wf(&self) -> bool {
        self.board.wf() && self.menu_state.wf()
    }

    /// Leaves the menu for the board.
    pub fn run(&mut self)
        ensures
            *final(self) == (Game { current_screen: CurrentScreen::Game, ..*old(self) }),
    {
        self.current_screen = CurrentScreen::Game;
    }

    /// Moves the menu's mark: `Up` to the previous entry, `Down` to the next;
    /// the other directions do nothing.
    pub fn move_menu_cursor(&mut self, direction: Direction)
        requires
            old(self).wf(),
        ensures
            final(self).wf(),
            final(self).is_running == old(self).is_running,
            final(self).board == old(self).board,
            final(self).current_screen == old(self).current_screen,
            final(self).menu_state.item_count == old(self).menu_state.item_count,
            final(self).menu_state.selected == match direction {
                Direction::Up => old(self).menu_state.after_previous(),
                Direction::Down => old(self).menu_state.after_next(),
                _ => old(self).menu_state.selected,
            },
    {
        match direction {
            Direction::Up => self.menu_state.previous(),
            Direction::Down => self.menu_state.next(),
            _ => {},
        }
    }

    /// Acts on the marked menu entry: the first starts the game, any other
    /// ends the session.
    pub fn choose_menu_entry(&mut self)
        ensures
            *final(self) == if old(self).menu_state.selected == 0 {
                Game { current_screen: CurrentScreen::Game, ..*old(self) }
            } else {
                Game { is_running: false, ..*old(self) }
            },
    {
        if self.menu_state.selected == 0 {
            self.run();
        } else {
            self.quit();
        }
    }

    /// Ends the session.
    pub fn quit(&mut self)
        ensures
            *final(self) == (Game { is_running: false, ..*old(self) }),
    {
        self.is_running = false;
    }

    /// A timer tick: nothing in the game depends on time.
    pub fn tick(&self) {
    }
}

impl Default for Game {
    /// A running session on the menu, with a board in the starting position.
    fn default() -> (r: Self)
        ensures
            r.wf(),
            r.is_running,
            r.current_screen == CurrentScreen::Menu,
            r.menu_state.selected == 0,
            r.board.is_fresh(r.board.board),
            forall|x: int, y: int|
                0 <= x < 8 && 0 <= y < 8 ==> cell(r.board.board, x, y) == start_cell(x, y),
    {
        Self {
            is_running: true,
            board: Board::default(),
            current_screen: CurrentScreen::Menu,
            menu_state: MenuState::default(),
        }
    }
}

} // verus!
