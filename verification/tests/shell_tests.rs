use gemini_shell::animation::{AnimationPlan, WorkArea, plan_slide, slide_positions, speed_params};
use gemini_shell::controller::{Command, NormalWindowState, WindowController};
use gemini_shell::dispatch::{
    CloseAction, HOTKEY_NORMAL_ID, HOTKEY_PANEL_ID, HotkeyAction, MenuAction, SettingsWindowCommand,
    TrayAction, close_requested_action, hotkey_action, menu_action, settings_window_command,
    tray_click_action,
};
use gemini_shell::navigation::{contains_sub, navigation_allowed};
use gemini_shell::settings::AppSettings;
use gemini_shell::str_eq;

fn work_area() -> WorkArea {
    WorkArea { x: 0, y: 0, width: 1920, height: 1080 }
}

#[test]
fn speed_presets_match_table() {
    assert_eq!(speed_params("instant"), (1, 1));
    assert_eq!(speed_params("fast"), (100, 10));
    assert_eq!(speed_params("normal"), (250, 20));
    assert_eq!(speed_params("slow"), (500, 30));
    assert_eq!(speed_params("warp"), (120, 15));
    assert_eq!(speed_params(""), (120, 15));
}

#[test]
fn instant_show_is_single_direct_write() {
    let (duration_ms, steps) = speed_params("instant");
    let plan = plan_slide(true, work_area(), 420, duration_ms, steps);
    let positions = slide_positions(&plan);
    assert_eq!(positions, vec![1500]);
    assert_eq!(plan.end_x, 1500);
    assert_eq!(plan.duration_ms, 1);
}

#[test]
fn fast_hide_sweeps_in_ten_steps() {
    let (duration_ms, steps) = speed_params("fast");
    let plan = plan_slide(false, work_area(), 420, duration_ms, steps);
    assert_eq!(plan.start_x, 1920 - 420);
    assert_eq!(plan.end_x, 1920);
    assert_eq!(plan.steps, 10);
    assert_eq!(plan.duration_ms, 100);
    let positions = slide_positions(&plan);
    assert_eq!(positions.len(), 10);
    for (k, x) in positions.iter().enumerate() {
        assert_eq!(*x, 1500 + 42 * (k as i32 + 1));
    }
    assert_eq!(*positions.last().unwrap(), 1920);
}

#[test]
fn sweep_final_step_snaps_even_with_rounding() {
    let plan = AnimationPlan {
        duration_ms: 120,
        steps: 15,
        start_x: 1920,
        end_x: 1499,
        y: 0,
        physical_width: 421,
        physical_height: 1080,
    };
    let positions = slide_positions(&plan);
    assert_eq!(positions.len(), 15);
    assert_eq!(*positions.last().unwrap(), 1499);
    for w in positions.windows(2) {
        assert!(w[1] <= w[0]);
    }
}

#[test]
fn toggle_panel_twice_restores_flag_and_position() {
    let mut c = WindowController::new();
    let first = c.toggle_panel();
    assert!(c.panel_visible);
    assert_eq!(first, vec![Command::HideNormal, Command::SlidePanel { show: true }]);
    let second = c.toggle_panel();
    assert!(!c.panel_visible);
    assert_eq!(second, vec![Command::SlidePanel { show: false }]);
    let plan_back = plan_slide(false, work_area(), 420, 100, 10);
    assert_eq!(plan_back.end_x, 1920);
    let parked_at_start = 1920;
    assert_eq!(plan_back.end_x, parked_at_start);
}

#[test]
fn startup_panel_shows_panel_and_no_normal_transition() {
    let mut c = WindowController::new();
    let mut settings = AppSettings::default();
    settings.default_window = String::from("panel");
    let cmds = c.apply_startup(&settings);
    assert!(c.panel_visible);
    for cmd in &cmds {
        assert_ne!(*cmd, Command::ShowNormal);
        assert_ne!(*cmd, Command::FocusNormal);
    }
    assert!(cmds.contains(&Command::SlidePanel { show: true }));
}

#[test]
fn startup_normal_shows_and_focuses() {
    let mut c = WindowController::new();
    let settings = AppSettings::default();
    let cmds = c.apply_startup(&settings);
    assert!(!c.panel_visible);
    assert_eq!(
        cmds,
        vec![Command::ShowNormal, Command::FocusNormal, Command::ReloadConversation]
    );
}

#[test]
fn startup_none_transitions_nothing() {
    let mut c = WindowController::new();
    let mut settings = AppSettings::default();
    settings.default_window = String::from("none");
    let cmds = c.apply_startup(&settings);
    assert!(!c.panel_visible);
    assert!(cmds.is_empty());
}

#[test]
fn opening_normal_hides_visible_panel() {
    let mut c = WindowController::new();
    c.toggle_panel();
    assert!(c.panel_visible);
    let cmds = c.toggle_normal(NormalWindowState::Hidden, false);
    assert!(!c.panel_visible);
    assert_eq!(
        cmds,
        vec![Command::SlidePanel { show: false }, Command::ShowNormal, Command::FocusNormal]
    );
}

#[test]
fn focusing_unfocused_normal_hides_visible_panel() {
    let mut c = WindowController::new();
    c.toggle_panel();
    let cmds = c.toggle_normal(NormalWindowState::VisibleUnfocused, true);
    assert!(!c.panel_visible);
    assert_eq!(
        cmds,
        vec![
            Command::FocusNormal,
            Command::SlidePanel { show: false },
            Command::ReloadConversation
        ]
    );
}

#[test]
fn focused_normal_is_hidden_and_panel_flag_untouched() {
    let mut c = WindowController::new();
    c.toggle_panel();
    let cmds = c.toggle_normal(NormalWindowState::VisibleFocused, true);
    assert!(c.panel_visible);
    assert_eq!(cmds, vec![Command::HideNormal]);
}

#[test]
fn bogus_tray_action_behaves_as_panel() {
    assert_eq!(tray_click_action("bogus"), tray_click_action("panel"));
    assert_eq!(tray_click_action("bogus"), TrayAction::TogglePanel);
    assert_eq!(tray_click_action(""), TrayAction::TogglePanel);
    assert_eq!(tray_click_action("normal"), TrayAction::ToggleNormal);
    assert_eq!(tray_click_action("settings"), TrayAction::OpenSettings);
}

#[test]
fn menu_ids_dispatch() {
    assert_eq!(menu_action("quit"), Some(MenuAction::Quit));
    assert_eq!(menu_action("toggle"), Some(MenuAction::TogglePanel));
    assert_eq!(menu_action("normal"), Some(MenuAction::ToggleNormal));
    assert_eq!(menu_action("settings"), Some(MenuAction::OpenSettings));
    assert_eq!(menu_action("unknown"), None);
}

#[test]
fn hotkey_ids_dispatch() {
    assert_eq!(hotkey_action(HOTKEY_PANEL_ID), Some(HotkeyAction::TogglePanel));
    assert_eq!(hotkey_action(HOTKEY_NORMAL_ID), Some(HotkeyAction::ToggleNormal));
    assert_eq!(hotkey_action(0), None);
    assert_eq!(hotkey_action(3), None);
}

#[test]
fn close_policy_follows_setting() {
    assert_eq!(close_requested_action(true), CloseAction::HideToTray);
    assert_eq!(close_requested_action(false), CloseAction::CloseWindow);
}

#[test]
fn settings_window_open_decision() {
    assert_eq!(settings_window_command(true), SettingsWindowCommand::ShowExisting);
    assert_eq!(settings_window_command(false), SettingsWindowCommand::CreateNew);
}

#[test]
fn navigation_keeps_hosted_hosts_inside() {
    assert!(navigation_allowed("gemini.google.com", "https"));
    assert!(navigation_allowed("accounts.google.com", "https"));
    assert!(navigation_allowed("myaccount.google.com", "https"));
    assert!(navigation_allowed("consent.google.com", "https"));
    assert!(navigation_allowed("gds.google.com", "https"));
    assert!(navigation_allowed("tauri.localhost", "https"));
    assert!(navigation_allowed("", "https"));
    assert!(navigation_allowed("example.com", "tauri"));
    assert!(navigation_allowed("example.com", "about"));
    assert!(navigation_allowed("example.com", "blob"));
    assert!(navigation_allowed("example.com", "data"));
    assert!(!navigation_allowed("example.com", "https"));
    assert!(!navigation_allowed("google.com", "https"));
    assert!(navigation_allowed("evil.gemini.google.com.attacker.net", "https"));
}

#[test]
fn contains_sub_finds_substrings() {
    assert!(contains_sub("abcdef", "cde"));
    assert!(contains_sub("abcdef", ""));
    assert!(contains_sub("abcdef", "abcdef"));
    assert!(!contains_sub("abcdef", "abcdefg"));
    assert!(!contains_sub("abcdef", "ce"));
    assert!(!contains_sub("", "a"));
    assert!(contains_sub("", ""));
    assert!(contains_sub("aaab", "aab"));
}

#[test]
fn str_eq_compares_by_characters() {
    assert!(str_eq("", ""));
    assert!(str_eq("panel", "panel"));
    assert!(!str_eq("panel", "pane"));
    assert!(!str_eq("panel", "panek"));
    assert!(!str_eq("", "x"));
}
