//! Configuration values the core consumes. Discovery and parsing of the
//! configuration file live with the caller; the core only fixes the shape
//! and the defaults.
use vstd::prelude::*;

verus! {

/// Key bindings for the history view.
#[derive(Debug, Clone)]
pub struct Keybinds {
    pub up: String,
    pub down: String,
    pub delete: String,
    pub delete_all: String,
    pub select: String,
}

/// The configuration the clipboard core consumes.
#[derive(Debug, Clone)]
pub struct ClipboardConfig {
    pub history_limit: u64,
    pub enable_titlebar: bool,
    pub force_dark_mode: bool,
    pub keybinds: Keybinds,
    pub persist_history: bool,
}

impl Default for Keybinds {
    /// The default key bindings.
    fn default() -> (r: Keybinds)
        ensures
            r.up@ == "ArrowUp"@,
            r.down@ == "ArrowDown"@,
            r.delete@ == "X"@,
            r.delete_all@ == "shift+X"@,
            r.select@ == "Enter"@,
    {
        Keybinds {
            up: String::from_str("ArrowUp"),
            down: String::from_str("ArrowDown"),
            delete: String::from_str("X"),
            delete_all: String::from_str("shift+X"),
            select: String::from_str("Enter"),
        }
    }
}

impl Default for ClipboardConfig {
    /// The defaults: a ring cap of 50, a titlebar, no forced dark mode,
    /// history persisted across runs.
    fn default() -> (r: ClipboardConfig)
        ensures
            r.history_limit == 50u64,
            r.enable_titlebar == true,
            r.force_dark_mode == false,
            r.persist_history == true,
            r.keybinds.up@ == "ArrowUp"@,
            r.keybinds.down@ == "ArrowDown"@,
            r.keybinds.delete@ == "X"@,
            r.keybinds.delete_all@ == "shift+X"@,
            r.keybinds.select@ == "Enter"@,
    {
        ClipboardConfig {
            history_limit: 50,
            enable_titlebar: true,
            force_dark_mode: false,
            keybinds: Keybinds::default(),
            persist_history: true,
        }
    }
}

} // verus!
