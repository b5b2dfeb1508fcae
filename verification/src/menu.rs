//! The main menu.

use vstd::prelude::*;
use crate::player::Key;
use crate::state::MainMenuSelection;

verus! {

/// What the player did in the main menu: moved to an entry, or chose one.
#[derive(Clone, Copy, PartialEq, Eq, Debug, Structural)]
pub enum MainMenuResult {
    NoSelection { selected: MainMenuSelection },
    Selected { selected: MainMenuSelection },
}

/// The entry above `selection`, going round; loading is skipped when no
/// saved game exists.
pub open spec fn entry_above(selection: MainMenuSelection, save_exists: bool) -> MainMenuSelection {
    match selection {
        MainMenuSelection::NewGame => MainMenuSelection::Quit,
        MainMenuSelection::LoadGame => MainMenuSelection::NewGame,
        MainMenuSelection::Quit => if save_exists {
            MainMenuSelection::LoadGame
        } else {
            MainMenuSelection::NewGame
        },
    }
}

/// The entry below `selection`, going round; loading is skipped when no
/// saved game exists.
pub open spec fn entry_below(selection: MainMenuSelection, save_exists: bool) -> MainMenuSelection {
    match selection {
        MainMenuSelection::NewGame => if save_exists {
            MainMenuSelection::LoadGame
        } else {
            MainMenuSelection::Quit
        },
        MainMenuSelection::LoadGame => MainMenuSelection::Quit,
        MainMenuSelection::Quit => MainMenuSelection::NewGame,
    }
}

/// What a key press means in the main menu with `selection` highlighted.
pub open spec fn menu_move(selection: MainMenuSelection, key: Option<Key>, save_exists: bool) -> MainMenuResult {
    match key {
        Some(Key::Escape) => MainMenuResult::NoSelection { selected: MainMenuSelection::Quit },
        Some(Key::Up) => MainMenuResult::NoSelection { selected: entry_above(selection, save_exists) },
        Some(Key::Down) => MainMenuResult::NoSelection { selected: entry_below(selection, save_exists) },
        Some(Key::Return) => MainMenuResult::Selected { selected: selection },
        _ => MainMenuResult::NoSelection { selected: selection },
    }
}

/// Reads a key press in the main menu: Up and Down move the highlight,
/// Escape moves it to quitting, Return chooses the highlighted entry.
pub fn main_menu(selection: MainMenuSelection, key: Option<Key>, save_exists: bool) -> (r: MainMenuResult)
    ensures
        r == menu_move(selection, key, save_exists),
{
    match key {
        Some(Key::Escape) => MainMenuResult::NoSelection { selected: MainMenuSelection::Quit },
        Some(Key::Up) => {
            let above = match selection {
                MainMenuSelection::NewGame => MainMenuSelection::Quit,
                MainMenuSelection::LoadGame => MainMenuSelection::NewGame,
                MainMenuSelection::Quit => MainMenuSelection::LoadGame,
            };
            let above = match above {
                MainMenuSelection::LoadGame => if save_exists {
                    above
                } else {
                    MainMenuSelection::NewGame
                },
                _ => above,
            };
            MainMenuResult::NoSelection { selected: above }
        },
        Some(Key::Down) => {
            let below = match selection {
                MainMenuSelection::NewGame => MainMenuSelection::LoadGame,
                MainMenuSelection::LoadGame => MainMenuSelection::Quit,
                MainMenuSelection::Quit => MainMenuSelection::NewGame,
            };
            let below = match below {
                MainMenuSelection::LoadGame => if save_exists {
                    below
                } else {
                    MainMenuSelection::Quit
                },
                _ => below,
            };
            MainMenuResult::NoSelection { selected: below }
        },
        Some(Key::Return) => MainMenuResult::Selected { selected: selection },
        _ => MainMenuResult::NoSelection { selected: selection },
    }
}

} // verus!
