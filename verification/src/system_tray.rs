//! The tray icon's menu.

use crate::text::chars_of;
use vstd::prelude::*;

verus! {

/// Identifier of the tray menu's quit entry.
pub const QUIT_ID: &'static str = "quit";

/// Sets up the tray icon and its menu.
#[derive(Debug)]
pub struct TraySetup {}

/// What clicking a tray menu entry does.
#[derive(Debug, PartialEq, Eq)]
pub enum MenuAction {
    /// Exit the application.
    Quit,
    /// An entry the menu does not know: only logged.
    Unknown,
}

impl TraySetup {
    /// The action of the menu entry with identifier `id`.
    pub fn menu_action(id: &str) -> (res: MenuAction)
        ensures
            res is Quit <==> id@ == QUIT_ID@,
    {
        proof {
            reveal_strlit("quit");
        }
        let c = chars_of(id);
        if c.len() == 4 && c[0] == 'q' && c[1] == 'u' && c[2] == 'i' && c[3] == 't' {
            assert(id@ =~= QUIT_ID@);
            MenuAction::Quit
        } else {
            proof {
                if id@ == QUIT_ID@ {
                    assert(c@[0] == 'q' && c@[1] == 'u' && c@[2] == 'i' && c@[3] == 't');
                }
            }
            MenuAction::Unknown
        }
    }
}

} // verus!
