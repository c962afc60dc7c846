//! Dispatch rules for the three external triggers — tray icon, tray menu,
//! and global hotkeys — plus the window-close policy and the settings
//! window's open decision.

use vstd::prelude::*;

use crate::str_eq;

verus! {

/// What a left-click on the tray icon does, per the configured action.
#[derive(Clone, Copy, PartialEq, Eq, Structural, Debug)]
pub enum TrayAction {
    TogglePanel,
    ToggleNormal,
    OpenSettings,
}

/// What a tray-menu selection does, by menu-item identifier.
#[derive(Clone, Copy, PartialEq, Eq, Structural, Debug)]
pub enum MenuAction {
    Quit,
    TogglePanel,
    ToggleNormal,
    OpenSettings,
}

/// What a registered global hotkey does, by hotkey identifier.
#[derive(Clone, Copy, PartialEq, Eq, Structural, Debug)]
pub enum HotkeyAction {
    TogglePanel,
    ToggleNormal,
}

/// How the settings window is brought up.
#[derive(Clone, Copy, PartialEq, Eq, Structural, Debug)]
pub enum SettingsWindowCommand {
    /// The window exists: show it and bring it to the foreground.
    ShowExisting,
    /// No window yet: create it.
    CreateNew,
}

/// What a close request on a window does.
#[derive(Clone, Copy, PartialEq, Eq, Structural, Debug)]
pub enum CloseAction {
    /// Hide the window and prevent the close, keeping the process alive
    /// in the tray.
    HideToTray,
    /// Let the window close normally.
    CloseWindow,
}

/// Identifier registered with the operating system for the panel hotkey.
pub const HOTKEY_PANEL_ID: i32 = 1;

/// Identifier registered with the operating system for the normal-window
/// hotkey.
pub const HOTKEY_NORMAL_ID: i32 = 2;

/// Attempts the content-reload script makes before giving up silently.
pub const RELOAD_RETRY_ATTEMPTS: u32 = 10;

/// Delay between two content-reload attempts, in milliseconds.
pub const RELOAD_RETRY_DELAY_MS: u32 = 500;

/// The action of a tray left-click for a configured action name; every
/// unrecognized name behaves as the panel toggle.
pub open spec fn spec_tray_action(s: Seq<char>) -> TrayAction {
    if s == "panel"@ {
        TrayAction::TogglePanel
    } else if s == "normal"@ {
        TrayAction::ToggleNormal
    } else if s == "settings"@ {
        TrayAction::OpenSettings
    } else {
        TrayAction::TogglePanel
    }
}

pub fn tray_click_action(action: &str) -> (r: TrayAction)
    ensures
        r == spec_tray_action(action@),
{
    if str_eq(action, "panel") {
        TrayAction::TogglePanel
    } else if str_eq(action, "normal") {
        TrayAction::ToggleNormal
    } else if str_eq(action, "settings") {
        TrayAction::OpenSettings
    } else {
        TrayAction::TogglePanel
    }
}

/// An unrecognized tray-click action name behaves exactly as the panel
/// action does.
pub proof fn lemma_unknown_tray_action_is_panel()
    ensures
        spec_tray_action("bogus"@) == spec_tray_action("panel"@),
{
    reveal_strlit("bogus");
    reveal_strlit("panel");
    reveal_strlit("normal");
    reveal_strlit("settings");
    if "bogus"@ == "panel"@ {
        assert("bogus"@[0] == "panel"@[0]);
        assert(false);
    }
    if "bogus"@ == "normal"@ {
        assert("bogus"@.len() == "normal"@.len());
        assert(false);
    }
    if "bogus"@ == "settings"@ {
        assert("bogus"@.len() == "settings"@.len());
        assert(false);
    }
}

/// The action of a tray-menu selection for a menu-item identifier;
/// unknown identifiers do nothing.
pub open spec fn spec_menu_action(id: Seq<char>) -> Option<MenuAction> {
    if id == "quit"@ {
        Some(MenuAction::Quit)
    } else if id == "toggle"@ {
        Some(MenuAction::TogglePanel)
    } else if id == "normal"@ {
        Some(MenuAction::ToggleNormal)
    } else if id == "settings"@ {
        Some(MenuAction::OpenSettings)
    } else {
        None
    }
}

pub fn menu_action(id: &str) -> (r: Option<MenuAction>)
    ensures
        r == spec_menu_action(id@),
{
    if str_eq(id, "quit") {
        Some(MenuAction::Quit)
    } else if str_eq(id, "toggle") {
        Some(MenuAction::TogglePanel)
    } else if str_eq(id, "normal") {
        Some(MenuAction::ToggleNormal)
    } else if str_eq(id, "settings") {
        Some(MenuAction::OpenSettings)
    } else {
        None
    }
}

/// The action of a received hotkey message, by registered identifier;
/// other identifiers do nothing.
pub open spec fn spec_hotkey_action(id: int) -> Option<HotkeyAction> {
    if id == 1 {
        Some(HotkeyAction::TogglePanel)
    } else if id == 2 {
        Some(HotkeyAction::ToggleNormal)
    } else {
        None
    }
}

pub fn hotkey_action(id: i32) -> (r: Option<HotkeyAction>)
    ensures
        r == spec_hotkey_action(id as int),
{
    if id == HOTKEY_PANEL_ID {
        Some(HotkeyAction::TogglePanel)
    } else if id == HOTKEY_NORMAL_ID {
        Some(HotkeyAction::ToggleNormal)
    } else {
        None
    }
}

/// How to bring up the settings window, given whether it already exists.
pub fn settings_window_command(window_exists: bool) -> (r: SettingsWindowCommand)
    ensures
        r == (if window_exists {
            SettingsWindowCommand::ShowExisting
        } else {
            SettingsWindowCommand::CreateNew
        }),
{
    if window_exists {
        SettingsWindowCommand::ShowExisting
    } else {
        SettingsWindowCommand::CreateNew
    }
}

/// The close-request policy: with close-to-tray enabled the window hides
/// and the close is prevented; otherwise it closes normally.
pub fn close_requested_action(close_to_tray: bool) -> (r: CloseAction)
    ensures
        r == (if close_to_tray {
            CloseAction::HideToTray
        } else {
            CloseAction::CloseWindow
        }),
{
    if close_to_tray {
        CloseAction::HideToTray
    } else {
        CloseAction::CloseWindow
    }
}

} // verus!
