//! The window-visibility state machine: the shared "panel shown" flag and
//! the decisions behind every transition of the two surfaces.
//!
//! Each transition updates the flag first and yields the commands the
//! shell must then perform on the operating-system windows, in order; a
//! concurrent reader of the flag therefore sees the new logical state
//! before the windows finish moving.

use vstd::prelude::*;

use crate::animation::{WorkArea, resting_x};
use crate::settings::AppSettings;
use crate::str_eq;

verus! {

/// What the shell must do to the operating-system windows after a
/// transition decision, performed outside this crate, in order.
#[derive(Clone, Copy, PartialEq, Eq, Structural, Debug)]
pub enum Command {
    /// Hide the normal window.
    HideNormal,
    /// Show the normal window.
    ShowNormal,
    /// Bring the normal window to the foreground.
    FocusNormal,
    /// Start a sliding animation of the panel, in or out.
    SlidePanel { show: bool },
    /// Trigger the best-effort content reload in the shown surface.
    ReloadConversation,
}

/// The operating system's answer about the normal window at decision
/// time; focus is queried, never stored.
#[derive(Clone, Copy, PartialEq, Eq, Structural, Debug)]
pub enum NormalWindowState {
    Hidden,
    VisibleUnfocused,
    VisibleFocused,
}

/// Holder of the process-wide visibility flag for the panel. Both
/// surfaces start hidden.
pub struct WindowController {
    pub panel_visible: bool,
}

/// Flag and commands after a panel toggle: the flag flips; when the panel
/// is about to show, the normal window is hidden first, so the two
/// surfaces never overlap; then the slide starts.
pub open spec fn spec_toggle_panel(panel_visible: bool) -> (bool, Seq<Command>) {
    let shown = !panel_visible;
    if shown {
        (shown, seq![Command::HideNormal, (Command::SlidePanel { show: shown })])
    } else {
        (shown, seq![(Command::SlidePanel { show: shown })])
    }
}

/// Flag and commands after a normal-window toggle. A focused window is
/// simply hidden. Otherwise the window is brought up and focused, the
/// panel (if shown) slides away to keep the surfaces mutually exclusive,
/// and the content reload fires when the auto-load preference asks.
pub open spec fn spec_toggle_normal(
    panel_visible: bool,
    normal: NormalWindowState,
    auto_load: bool,
) -> (bool, Seq<Command>) {
    match normal {
        NormalWindowState::VisibleFocused => (panel_visible, seq![Command::HideNormal]),
        NormalWindowState::VisibleUnfocused => (
            false,
            seq![Command::FocusNormal] + (if panel_visible {
                seq![(Command::SlidePanel { show: false })]
            } else {
                Seq::empty()
            }) + (if auto_load {
                seq![Command::ReloadConversation]
            } else {
                Seq::empty()
            }),
        ),
        NormalWindowState::Hidden => (
            false,
            (if panel_visible {
                seq![(Command::SlidePanel { show: false })]
            } else {
                Seq::empty()
            }) + seq![Command::ShowNormal, Command::FocusNormal] + (if auto_load {
                seq![Command::ReloadConversation]
            } else {
                Seq::empty()
            }),
        ),
    }
}

/// Flag and commands of the startup policy: `"normal"` shows and focuses
/// the normal window (plus the optional reload), `"panel"` performs one
/// panel toggle, anything else transitions nothing.
pub open spec fn spec_startup(
    panel_visible: bool,
    default_window: Seq<char>,
    normal_auto_load: bool,
) -> (bool, Seq<Command>) {
    if default_window == "normal"@ {
        (
            panel_visible,
            seq![Command::ShowNormal, Command::FocusNormal] + (if normal_auto_load {
                seq![Command::ReloadConversation]
            } else {
                Seq::empty()
            }),
        )
    } else if default_window == "panel"@ {
        spec_toggle_panel(panel_visible)
    } else {
        (panel_visible, Seq::empty())
    }
}

impl WindowController {
    /// A controller with both surfaces hidden, the state at process
    /// start.
    pub fn new() -> (r: Self)
        ensures
            r.panel_visible == false,
    {
        WindowController { panel_visible: false }
    }

    /// Flip the panel's visibility flag and decide the commands of the
    /// transition. The flag is updated before any command is handed out.
    pub fn toggle_panel(&mut self) -> (cmds: Vec<Command>)
        ensures
            final(self).panel_visible == spec_toggle_panel(old(self).panel_visible).0,
            cmds@ == spec_toggle_panel(old(self).panel_visible).1,
    {
        let shown = !self.panel_visible;
        self.panel_visible = shown;
        let mut cmds: Vec<Command> = Vec::new();
        if shown {
            cmds.push(Command::HideNormal);
        }
        cmds.push(Command::SlidePanel { show: shown });
        proof {
            assert(cmds@ =~= spec_toggle_panel(!shown).1);
        }
        cmds
    }

    /// Decide the normal-window transition for the window state the
    /// operating system reports and the auto-load preference.
    pub fn toggle_normal(&mut self, normal: NormalWindowState, auto_load: bool) -> (cmds: Vec<
        Command,
    >)
        ensures
            final(self).panel_visible == spec_toggle_normal(
                old(self).panel_visible,
                normal,
                auto_load,
            ).0,
            cmds@ == spec_toggle_normal(old(self).panel_visible, normal, auto_load).1,
    {
        let ghost was_visible = self.panel_visible;
        let mut cmds: Vec<Command> = Vec::new();
        match normal {
            NormalWindowState::VisibleFocused => {
                cmds.push(Command::HideNormal);
            },
            NormalWindowState::VisibleUnfocused => {
                cmds.push(Command::FocusNormal);
                if self.panel_visible {
                    self.panel_visible = false;
                    cmds.push(Command::SlidePanel { show: false });
                }
                if auto_load {
                    cmds.push(Command::ReloadConversation);
                }
            },
            NormalWindowState::Hidden => {
                if self.panel_visible {
                    self.panel_visible = false;
                    cmds.push(Command::SlidePanel { show: false });
                }
                cmds.push(Command::ShowNormal);
                cmds.push(Command::FocusNormal);
                if auto_load {
                    cmds.push(Command::ReloadConversation);
                }
            },
        }
        proof {
            assert(cmds@ =~= spec_toggle_normal(was_visible, normal, auto_load).1);
        }
        cmds
    }

    /// Apply the startup policy read from the settings.
    pub fn apply_startup(&mut self, settings: &AppSettings) -> (cmds: Vec<Command>)
        ensures
            final(self).panel_visible == spec_startup(
                old(self).panel_visible,
                settings@.default_window,
                settings@.normal_auto_load_conversation,
            ).0,
            cmds@ == spec_startup(
                old(self).panel_visible,
                settings@.default_window,
                settings@.normal_auto_load_conversation,
            ).1,
    {
        let ghost was_visible = self.panel_visible;
        if str_eq(settings.default_window.as_str(), "normal") {
            let mut cmds: Vec<Command> = Vec::new();
            cmds.push(Command::ShowNormal);
            cmds.push(Command::FocusNormal);
            if settings.normal_auto_load_conversation {
                cmds.push(Command::ReloadConversation);
            }
            proof {
                assert(cmds@ =~= spec_startup(
                    was_visible,
                    settings@.default_window,
                    settings@.normal_auto_load_conversation,
                ).1);
            }
            cmds
        } else if str_eq(settings.default_window.as_str(), "panel") {
            self.toggle_panel()
        } else {
            Vec::new()
        }
    }
}

/// Starting with both surfaces hidden, a `"panel"` startup policy leaves
/// the panel's visibility flag shown, and no command of the transition
/// shows or focuses the normal window.
pub proof fn lemma_startup_panel_shows_panel(auto_load: bool)
    ensures
        spec_startup(false, "panel"@, auto_load).0 == true,
        forall|k: int|
            0 <= k < spec_startup(false, "panel"@, auto_load).1.len()
                ==> spec_startup(false, "panel"@, auto_load).1[k] != Command::ShowNormal
                && spec_startup(false, "panel"@, auto_load).1[k] != Command::FocusNormal,
{
    reveal_strlit("panel");
    reveal_strlit("normal");
    if "panel"@ == "normal"@ {
        assert("panel"@.len() == "normal"@.len());
        assert(false);
    }
    let r = spec_startup(false, "panel"@, auto_load);
    assert(r == spec_toggle_panel(false));
    assert(r.1 == seq![Command::HideNormal, (Command::SlidePanel { show: true })]);
    assert forall|k: int| 0 <= k < r.1.len() implies r.1[k] != Command::ShowNormal && r.1[k]
        != Command::FocusNormal by {
        if k == 0 {
            assert(r.1[0] == Command::HideNormal);
        } else {
            assert(r.1[1] == (Command::SlidePanel { show: true }));
        }
    }
}

/// Toggling the panel twice in sequence returns the visibility flag to
/// its original value, and the second slide's target is exactly the
/// position the panel rested at before the first toggle.
pub proof fn lemma_toggle_panel_twice(v0: bool, area: WorkArea, physical_width: int)
    ensures
        spec_toggle_panel(spec_toggle_panel(v0).0).0 == v0,
        spec_toggle_panel(spec_toggle_panel(v0).0).1.last() == (Command::SlidePanel { show: v0 }),
        resting_x(spec_toggle_panel(spec_toggle_panel(v0).0).0, area, physical_width) == resting_x(
            v0,
            area,
            physical_width,
        ),
{
    let r1 = spec_toggle_panel(v0);
    let r2 = spec_toggle_panel(r1.0);
    assert(r2.0 == v0);
}

/// Opening or focusing the normal window while the panel is visible
/// leaves the panel's visibility flag hidden afterward.
pub proof fn lemma_open_normal_hides_panel(
    panel_visible: bool,
    normal: NormalWindowState,
    auto_load: bool,
)
    requires
        !(normal is VisibleFocused),
    ensures
        spec_toggle_normal(panel_visible, normal, auto_load).0 == false,
{
}

} // verus!
