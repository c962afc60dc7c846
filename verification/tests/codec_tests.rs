use gemini_shell::codec::{parse_settings, serialize_settings};
use gemini_shell::settings::{AppSettings, SettingsManager};

fn sample() -> AppSettings {
    AppSettings {
        autostart: false,
        default_window: String::from("panel"),
        normal_auto_load_conversation: false,
        panel_auto_load_conversation: true,
        tray_click_action: String::from("settings"),
        panel_width: -7,
        animation_speed: String::from("slow"),
        hotkey_panel: String::from("Ctrl+Shift+P"),
        hotkey_normal: String::from("Ctrl+Shift+N"),
        enable_ctrl_n: false,
        gemini_url: String::from("https://example.com/a?b=c"),
        close_to_tray: false,
    }
}

fn assert_settings_eq(a: &AppSettings, b: &AppSettings) {
    assert_eq!(a.autostart, b.autostart);
    assert_eq!(a.default_window, b.default_window);
    assert_eq!(a.normal_auto_load_conversation, b.normal_auto_load_conversation);
    assert_eq!(a.panel_auto_load_conversation, b.panel_auto_load_conversation);
    assert_eq!(a.tray_click_action, b.tray_click_action);
    assert_eq!(a.panel_width, b.panel_width);
    assert_eq!(a.animation_speed, b.animation_speed);
    assert_eq!(a.hotkey_panel, b.hotkey_panel);
    assert_eq!(a.hotkey_normal, b.hotkey_normal);
    assert_eq!(a.enable_ctrl_n, b.enable_ctrl_n);
    assert_eq!(a.gemini_url, b.gemini_url);
    assert_eq!(a.close_to_tray, b.close_to_tray);
}

#[test]
fn round_trip_default_settings() {
    let s = AppSettings::default();
    let text = serialize_settings(&s);
    let back = parse_settings(&text).expect("default settings must decode");
    assert_settings_eq(&s, &back);
}

#[test]
fn round_trip_sample_settings() {
    let s = sample();
    let text = serialize_settings(&s);
    let back = parse_settings(&text).expect("sample settings must decode");
    assert_settings_eq(&s, &back);
}

#[test]
fn round_trip_strings_with_quotes_and_backslashes() {
    let mut s = AppSettings::default();
    s.gemini_url = String::from("say \"hi\" \\ twice \\\\ \"\"");
    s.hotkey_panel = String::from("\\");
    s.hotkey_normal = String::from("\"");
    s.default_window = String::new();
    let text = serialize_settings(&s);
    let back = parse_settings(&text).expect("escaped strings must decode");
    assert_settings_eq(&s, &back);
}

#[test]
fn round_trip_multibyte_characters() {
    let mut s = AppSettings::default();
    s.gemini_url = String::from("https://\u{e9}\u{4e2d}\u{6587}\u{1f600}.example/\u{fb}");
    s.hotkey_panel = String::from("\u{393}\u{3b5}\u{3b9}\u{3ac}");
    let text = serialize_settings(&s);
    let back = parse_settings(&text).expect("multibyte strings must decode");
    assert_settings_eq(&s, &back);
}

#[test]
fn round_trip_extreme_widths() {
    for w in [i32::MIN, i32::MIN + 1, -1, 0, 1, 420, i32::MAX - 1, i32::MAX] {
        let mut s = AppSettings::default();
        s.panel_width = w;
        let text = serialize_settings(&s);
        let back = parse_settings(&text).expect("every width must decode");
        assert_eq!(back.panel_width, w);
    }
}

#[test]
fn serialized_text_is_real_json() {
    let s = AppSettings::default();
    let text = serialize_settings(&s);
    let v: serde_json::Value = serde_json::from_str(&text).expect("output must be valid JSON");
    assert_eq!(v["autostart"], serde_json::Value::Bool(true));
    assert_eq!(v["default_window"].as_str(), Some("normal"));
    assert_eq!(v["panel_width"].as_i64(), Some(420));
    assert_eq!(v["animation_speed"].as_str(), Some("fast"));
    assert_eq!(v["hotkey_panel"].as_str(), Some("Ctrl+Alt+G"));
    assert_eq!(v["gemini_url"].as_str(), Some("https://gemini.google.com"));
    assert_eq!(v["close_to_tray"], serde_json::Value::Bool(true));
}

#[test]
fn serialized_escapes_survive_json() {
    let mut s = AppSettings::default();
    s.gemini_url = String::from("a\"b\\c");
    let text = serialize_settings(&s);
    let v: serde_json::Value = serde_json::from_str(&text).expect("escaped output must be JSON");
    assert_eq!(v["gemini_url"].as_str(), Some("a\"b\\c"));
}

#[test]
fn corrupt_payloads_are_rejected() {
    assert!(parse_settings("").is_none());
    assert!(parse_settings("{}").is_none());
    assert!(parse_settings("not json at all").is_none());
    assert!(parse_settings("{\n  \"autostart\": maybe").is_none());
    let good = serialize_settings(&AppSettings::default());
    let mut truncated = good.clone();
    truncated.pop();
    assert!(parse_settings(&truncated).is_none());
    let mut trailing = good.clone();
    trailing.push(' ');
    assert!(parse_settings(&trailing).is_none());
}

#[test]
fn oversized_numbers_are_rejected() {
    let good = serialize_settings(&AppSettings::default());
    let too_big = good.replace("420", "3000000000");
    assert!(parse_settings(&too_big).is_none());
    let too_long = good.replace("420", "12345678901");
    assert!(parse_settings(&too_long).is_none());
    let too_negative = good.replace("420", "-3000000000");
    assert!(parse_settings(&too_negative).is_none());
    let still_fits = good.replace("420", "2147483647");
    assert_eq!(parse_settings(&still_fits).unwrap().panel_width, i32::MAX);
    let min_fits = good.replace("420", "-2147483648");
    assert_eq!(parse_settings(&min_fits).unwrap().panel_width, i32::MIN);
}

#[test]
fn store_from_missing_payload_is_default() {
    let m = SettingsManager::new(None);
    assert_settings_eq(&m.get(), &AppSettings::default());
}

#[test]
fn store_from_corrupt_payload_is_default() {
    let m = SettingsManager::new(Some("{\"autostart\": tr"));
    assert_settings_eq(&m.get(), &AppSettings::default());
    let m2 = SettingsManager::new(Some(""));
    assert_settings_eq(&m2.get(), &AppSettings::default());
}

#[test]
fn store_from_good_payload_restores_value() {
    let s = sample();
    let text = serialize_settings(&s);
    let m = SettingsManager::new(Some(&text));
    assert_settings_eq(&m.get(), &s);
}

#[test]
fn set_commits_only_on_successful_write() {
    let mut m = SettingsManager::new(None);
    let next = sample();
    let err: Result<(), String> = Err(String::from("disk full"));
    let r = m.set(next, err);
    assert_eq!(r, Err(String::from("disk full")));
    assert_settings_eq(&m.get(), &AppSettings::default());
    let next2 = sample();
    let r2 = m.set(next2, Ok(()));
    assert!(r2.is_ok());
    assert_settings_eq(&m.get(), &sample());
}

#[test]
fn update_applies_mutation_and_renders_result() {
    let mut m = SettingsManager::new(None);
    let text = m.update(|mut s: AppSettings| {
        s.panel_width = 512;
        s.autostart = false;
        s
    });
    assert_eq!(m.get().panel_width, 512);
    assert!(!m.get().autostart);
    let back = parse_settings(&text).expect("rendered update must decode");
    assert_eq!(back.panel_width, 512);
    assert!(!back.autostart);
}

#[test]
fn render_matches_serializer() {
    let m = SettingsManager::new(None);
    assert_eq!(m.render(), serialize_settings(&AppSettings::default()));
}
