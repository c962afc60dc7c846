//! The persisted application settings: the data model, its mathematical
//! view, and the default configuration used whenever no stored value can
//! be decoded.

use vstd::prelude::*;
use vstd::string::StringExecFns;

verus! {

/// User preferences persisted between runs.
///
/// The three `String` selector fields (`default_window`, `tray_click_action`,
/// `animation_speed`) carry free-form text; every consumer interprets
/// unrecognized values by falling back to a documented default, so no
/// invariant restricts them here.
#[derive(Debug, Clone)]
pub struct AppSettings {
    pub autostart: bool,
    pub default_window: String,
    pub normal_auto_load_conversation: bool,
    pub panel_auto_load_conversation: bool,
    pub tray_click_action: String,
    pub panel_width: i32,
    pub animation_speed: String,
    pub hotkey_panel: String,
    pub hotkey_normal: String,
    pub enable_ctrl_n: bool,
    pub gemini_url: String,
    pub close_to_tray: bool,
}

/// Mathematical view of [`AppSettings`]: strings as character sequences,
/// the width as an unbounded integer.
#[verifier::ext_equal]
pub struct AppSettingsV {
    pub autostart: bool,
    pub default_window: Seq<char>,
    pub normal_auto_load_conversation: bool,
    pub panel_auto_load_conversation: bool,
    pub tray_click_action: Seq<char>,
    pub panel_width: int,
    pub animation_speed: Seq<char>,
    pub hotkey_panel: Seq<char>,
    pub hotkey_normal: Seq<char>,
    pub enable_ctrl_n: bool,
    pub gemini_url: Seq<char>,
    pub close_to_tray: bool,
}

impl View for AppSettings {
    type V = AppSettingsV;

    open spec fn view(&self) -> AppSettingsV {
        AppSettingsV {
            autostart: self.autostart,
            default_window: self.default_window@,
            normal_auto_load_conversation: self.normal_auto_load_conversation,
            panel_auto_load_conversation: self.panel_auto_load_conversation,
            tray_click_action: self.tray_click_action@,
            panel_width: self.panel_width as int,
            animation_speed: self.animation_speed@,
            hotkey_panel: self.hotkey_panel@,
            hotkey_normal: self.hotkey_normal@,
            enable_ctrl_n: self.enable_ctrl_n,
            gemini_url: self.gemini_url@,
            close_to_tray: self.close_to_tray,
        }
    }
}

/// A view is representable when its width fits the stored 32-bit field.
pub open spec fn width_in_range(v: AppSettingsV) -> bool {
    i32::MIN <= v.panel_width <= i32::MAX
}

/// The default configuration, as a mathematical value.
pub open spec fn spec_default_settings() -> AppSettingsV {
    AppSettingsV {
        autostart: true,
        default_window: "normal"@,
        normal_auto_load_conversation: true,
        panel_auto_load_conversation: true,
        tray_click_action: "panel"@,
        panel_width: 420,
        animation_speed: "fast"@,
        hotkey_panel: "Ctrl+Alt+G"@,
        hotkey_normal: "Ctrl+G"@,
        enable_ctrl_n: true,
        gemini_url: "https://gemini.google.com"@,
        close_to_tray: true,
    }
}

impl Default for AppSettings {
    /// Every field has a total default; a store that cannot decode its
    /// payload falls back to exactly this value.
    fn default() -> (r: Self)
        ensures
            r@ == spec_default_settings(),
    {
        AppSettings {
            autostart: true,
            default_window: String::from_str("normal"),
            normal_auto_load_conversation: true,
            panel_auto_load_conversation: true,
            tray_click_action: String::from_str("panel"),
            panel_width: 420,
            animation_speed: String::from_str("fast"),
            hotkey_panel: String::from_str("Ctrl+Alt+G"),
            hotkey_normal: String::from_str("Ctrl+G"),
            enable_ctrl_n: true,
            gemini_url: String::from_str("https://gemini.google.com"),
            close_to_tray: true,
        }
    }
}

/// Owner of the persisted configuration: the single in-memory settings
/// value, read by every component and replaced only through [`Self::set`]
/// and [`Self::update`]. Exclusive access (`&mut`) is the store's mutual
/// exclusion; file I/O happens outside and its outcome is handed in.
pub struct SettingsManager {
    pub settings: AppSettings,
}

impl View for SettingsManager {
    type V = AppSettingsV;

    open spec fn view(&self) -> AppSettingsV {
        self.settings@
    }
}

impl SettingsManager {
    /// Build the store from the stored settings text, if any. A missing
    /// payload, and equally one that does not decode, yields exactly the
    /// default settings, and no error reaches the caller.
    pub fn new(stored: Option<&str>) -> (r: Self)
        ensures
            r@ == match stored {
                Some(text) => match crate::codec::spec_parse(text@) {
                    Some(w) => w,
                    None => spec_default_settings(),
                },
                None => spec_default_settings(),
            },
    {
        match stored {
            Some(text) => match crate::codec::parse_settings(text) {
                Some(s) => SettingsManager { settings: s },
                None => SettingsManager { settings: AppSettings::default() },
            },
            None => SettingsManager { settings: AppSettings::default() },
        }
    }

    /// An immutable snapshot of the current value.
    pub fn get(&self) -> (r: AppSettings)
        ensures
            r@ == self@,
    {
        self.settings.duplicate()
    }

    /// The exact text to persist for the current value.
    pub fn render(&self) -> (r: String)
        ensures
            r@ == crate::codec::spec_serialize(self@),
    {
        crate::codec::serialize_settings(&self.settings)
    }

    /// Replace the stored value, given the outcome of persisting it: the
    /// in-memory value changes only after a successful write, and a write
    /// failure leaves the previous value intact and surfaces the error.
    pub fn set(&mut self, settings: AppSettings, persisted: Result<(), String>) -> (r: Result<
        (),
        String,
    >)
        ensures
            persisted is Ok ==> final(self)@ == settings@ && r is Ok,
            persisted is Err ==> final(self)@ == old(self)@ && r == persisted,
    {
        match persisted {
            Ok(()) => {
                self.settings = settings;
                Ok(())
            },
            Err(e) => Err(e),
        }
    }

    /// Apply a transformation to the in-memory value under this store's
    /// critical section and return the text to persist. The in-memory
    /// value is updated even if the caller's persistence then fails: no
    /// rollback, by design.
    pub fn update<F: FnOnce(AppSettings) -> AppSettings>(&mut self, updater: F) -> (r: String)
        requires
            forall|s: AppSettings| s@ == old(self)@ ==> #[trigger] call_requires(updater, (s,)),
        ensures
            exists|s: AppSettings, out: AppSettings|
                s@ == old(self)@ && #[trigger] call_ensures(updater, (s,), out) && final(self)@
                    == out@,
            r@ == crate::codec::spec_serialize(final(self)@),
    {
        let current = self.settings.duplicate();
        let newer = updater(current);
        self.settings = newer;
        crate::codec::serialize_settings(&self.settings)
    }
}

impl AppSettings {
    /// Field-wise copy; unlike the derived `Clone`, its effect is stated.
    pub fn duplicate(&self) -> (r: Self)
        ensures
            r@ == self@,
    {
        AppSettings {
            autostart: self.autostart,
            default_window: self.default_window.clone(),
            normal_auto_load_conversation: self.normal_auto_load_conversation,
            panel_auto_load_conversation: self.panel_auto_load_conversation,
            tray_click_action: self.tray_click_action.clone(),
            panel_width: self.panel_width,
            animation_speed: self.animation_speed.clone(),
            hotkey_panel: self.hotkey_panel.clone(),
            hotkey_normal: self.hotkey_normal.clone(),
            enable_ctrl_n: self.enable_ctrl_n,
            gemini_url: self.gemini_url.clone(),
            close_to_tray: self.close_to_tray,
        }
    }
}

} // verus!
