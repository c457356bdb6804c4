//! The screens of the client's menu flow.

use vstd::prelude::*;

verus! {

/// The screen that the client shows.
#[derive(Clone, Copy, Debug, Hash, PartialEq, Eq, Structural)]
pub enum Screen {
    Splash,
    MainMenu,
    MultiplayerLobby,
}

impl Default for Screen {
    /// The client starts on the main menu.
    fn default() -> (s: Self)
        ensures
            s == Screen::MainMenu,
    {
        Screen::MainMenu
    }
}

} // verus!
