use estm::settings::{
    apply_picker_hotkey, load, migrate_picker_hotkey, snapshot, HistoryLimits, PickerHotkey,
    PickerHotkeyState, Platform, QuickPickPrefix, Settings, StoredHotkey, StoredSettings,
};

fn hotkey(shift: bool, alt: bool, cmd: bool, ctrl: bool, key: &str) -> PickerHotkey {
    PickerHotkey { shift, alt, cmd, ctrl, key: key.to_string() }
}

#[test]
fn default_hotkey_per_platform() {
    assert_eq!(PickerHotkey::default_for(Platform::MacOs), hotkey(true, false, true, false, "E"));
    assert_eq!(PickerHotkey::default_for(Platform::Other), hotkey(true, false, false, true, "E"));
}

#[test]
fn shortcut_string_orders_modifiers() {
    let h = hotkey(true, false, false, true, " e ");
    assert_eq!(h.to_shortcut_string(), Ok("Control+Shift+KeyE".to_string()));
    let all = hotkey(true, true, true, true, "k");
    assert_eq!(all.to_shortcut_string(), Ok("Control+Alt+Command+Shift+KeyK".to_string()));
    let cmd = hotkey(false, false, true, false, "Z");
    assert_eq!(cmd.to_shortcut_string(), Ok("Command+KeyZ".to_string()));
}

#[test]
fn shortcut_string_errors() {
    assert_eq!(
        hotkey(false, false, false, false, "E").to_shortcut_string(),
        Err("enable at least one modifier (Shift, Alt, Cmd, or Ctrl)".to_string())
    );
    assert_eq!(
        hotkey(true, false, false, false, "   ").to_shortcut_string(),
        Err("shortcut key must be a single letter".to_string())
    );
    assert_eq!(
        hotkey(true, false, false, false, "1").to_shortcut_string(),
        Err("shortcut key must be A–Z".to_string())
    );
    assert_eq!(
        hotkey(true, false, false, false, "é").to_shortcut_string(),
        Err("shortcut key must be A–Z".to_string())
    );
    assert_eq!(
        hotkey(true, false, false, false, "ab").to_shortcut_string(),
        Err("shortcut key must be a single letter".to_string())
    );
}

#[test]
fn normalize_key_trims_and_uppercases() {
    assert_eq!(hotkey(true, false, false, false, "\tq\n").normalize_key(), Ok("Q".to_string()));
}

#[test]
fn display_label_macos_symbols() {
    let h = hotkey(true, true, true, true, "e");
    assert_eq!(h.display_label(Platform::MacOs), "⌃⌥⌘⇧E");
    let d = PickerHotkey::default_for(Platform::MacOs);
    assert_eq!(d.display_label(Platform::MacOs), "⌘⇧E");
}

#[test]
fn display_label_other_platforms() {
    let h = hotkey(true, false, true, true, "e");
    assert_eq!(h.display_label(Platform::Other), "Ctrl+Win+Shift+E");
    // An invalid key is shown upper-cased as it stands.
    let bad = hotkey(false, true, false, false, "ab");
    assert_eq!(bad.display_label(Platform::Other), "Alt+AB");
    let none = hotkey(false, false, false, false, "x");
    assert_eq!(none.display_label(Platform::Other), "X");
}

#[test]
fn legacy_presets() {
    assert_eq!(
        PickerHotkey::from_legacy_preset("hyper", Platform::MacOs),
        hotkey(false, true, true, true, "E")
    );
    assert_eq!(
        PickerHotkey::from_legacy_preset("hyper", Platform::Other),
        hotkey(true, true, false, true, "E")
    );
    assert_eq!(
        PickerHotkey::from_legacy_preset("classic", Platform::Other),
        PickerHotkey::default_for(Platform::Other)
    );
}

#[test]
fn normalize_prefix_accepts_and_trims() {
    assert_eq!(QuickPickPrefix::normalize_prefix("  ;; "), Ok(";;".to_string()));
    assert_eq!(QuickPickPrefix::normalize_prefix("abcdefgh"), Ok("abcdefgh".to_string()));
}

#[test]
fn normalize_prefix_errors() {
    assert_eq!(QuickPickPrefix::normalize_prefix(""), Err("prefix must not be empty".to_string()));
    assert_eq!(QuickPickPrefix::normalize_prefix(" \t "), Err("prefix must not be empty".to_string()));
    assert_eq!(
        QuickPickPrefix::normalize_prefix("abcdefghi"),
        Err("prefix must be at most 8 characters".to_string())
    );
    // The limit counts bytes: five two-byte characters are too many.
    assert_eq!(
        QuickPickPrefix::normalize_prefix("ééééé"),
        Err("prefix must be at most 8 characters".to_string())
    );
    assert_eq!(QuickPickPrefix::normalize_prefix("éééé"), Ok("éééé".to_string()));
    assert_eq!(
        QuickPickPrefix::normalize_prefix("a1"),
        Err("prefix cannot contain digits 0–9".to_string())
    );
}

#[test]
fn history_limits_normalize() {
    assert_eq!(
        HistoryLimits::normalize(0, false, 0),
        Err("max entries must be between 1 and 50,000".to_string())
    );
    assert_eq!(
        HistoryLimits::normalize(50_001, false, 0),
        Err("max entries must be between 1 and 50,000".to_string())
    );
    assert_eq!(
        HistoryLimits::normalize(500, true, 0),
        Err("max age must be between 1 and 3,650 days".to_string())
    );
    assert_eq!(
        HistoryLimits::normalize(500, true, 3651),
        Err("max age must be between 1 and 3,650 days".to_string())
    );
    assert_eq!(
        HistoryLimits::normalize(500, false, 0),
        Ok(HistoryLimits { max_entries: 500, use_max_age: false, max_age_days: 0 })
    );
    assert_eq!(
        HistoryLimits::normalize(50_000, true, 3650),
        Ok(HistoryLimits { max_entries: 50_000, use_max_age: true, max_age_days: 3650 })
    );
    assert_eq!(
        HistoryLimits::normalize(1, true, 1),
        Ok(HistoryLimits { max_entries: 1, use_max_age: true, max_age_days: 1 })
    );
}

#[test]
fn history_limits_defaults() {
    assert_eq!(
        HistoryLimits::default(),
        HistoryLimits { max_entries: 500, use_max_age: true, max_age_days: 14 }
    );
    let q = QuickPickPrefix::default();
    assert!(!q.enabled);
    assert_eq!(q.prefix, ".");
}

#[test]
fn to_db_limits_converts_days() {
    let d = HistoryLimits { max_entries: 500, use_max_age: true, max_age_days: 14 }.to_db_limits();
    assert_eq!(d.max_rows, 500);
    assert_eq!(d.max_age_ms, Some(1_209_600_000));
    let off = HistoryLimits { max_entries: 7, use_max_age: false, max_age_days: 14 }.to_db_limits();
    assert_eq!(off.max_rows, 7);
    assert_eq!(off.max_age_ms, None);
    let big = HistoryLimits { max_entries: 1, use_max_age: true, max_age_days: u32::MAX }
        .to_db_limits();
    assert_eq!(big.max_age_ms, Some(u32::MAX as i64 * 86_400_000));
}

#[test]
fn load_without_file_gives_defaults() {
    let s = load(None, Platform::Other);
    assert_eq!(s.picker_hotkey, PickerHotkey::default_for(Platform::Other));
    assert_eq!(s.quick_pick_prefix, QuickPickPrefix::default());
    assert_eq!(s.history_limits, HistoryLimits::default());
}

#[test]
fn load_normalizes_entries() {
    let stored = StoredSettings {
        picker_hotkey: Some(StoredHotkey::Preset("hyper".to_string())),
        quick_pick_prefix: Some(QuickPickPrefix { enabled: true, prefix: "  ;; ".to_string() }),
        history_limits: Some(HistoryLimits { max_entries: 20, use_max_age: false, max_age_days: 0 }),
    };
    let s = load(Some(stored), Platform::MacOs);
    assert_eq!(s.picker_hotkey, hotkey(false, true, true, true, "E"));
    assert_eq!(s.quick_pick_prefix, QuickPickPrefix { enabled: true, prefix: ";;".to_string() });
    assert_eq!(s.history_limits, HistoryLimits { max_entries: 20, use_max_age: false, max_age_days: 0 });
}

#[test]
fn load_replaces_invalid_entries() {
    let stored = StoredSettings {
        picker_hotkey: Some(StoredHotkey::Other),
        quick_pick_prefix: Some(QuickPickPrefix { enabled: true, prefix: "9".to_string() }),
        history_limits: Some(HistoryLimits { max_entries: 0, use_max_age: true, max_age_days: 14 }),
    };
    let s = load(Some(stored), Platform::Other);
    assert_eq!(s.picker_hotkey, PickerHotkey::default_for(Platform::Other));
    assert_eq!(s.quick_pick_prefix, QuickPickPrefix { enabled: true, prefix: ".".to_string() });
    assert_eq!(s.history_limits, HistoryLimits::default());
}

#[test]
fn load_with_missing_entries() {
    let stored = StoredSettings { picker_hotkey: None, quick_pick_prefix: None, history_limits: None };
    let s = load(Some(stored), Platform::MacOs);
    assert_eq!(s.picker_hotkey, PickerHotkey::default_for(Platform::MacOs));
    assert_eq!(s.quick_pick_prefix, QuickPickPrefix::default());
    assert_eq!(s.history_limits, HistoryLimits::default());
}

#[test]
fn loaded_settings_are_valid_for_odd_files() {
    for prefix in ["", "  x ", "12", "abcdefghijk", "\u{3000}ok\u{3000}"] {
        for (n, age, days) in [(0u32, true, 0u32), (5, true, 4000), (5, false, 0), (60_000, false, 1)] {
            let stored = StoredSettings {
                picker_hotkey: None,
                quick_pick_prefix: Some(QuickPickPrefix { enabled: false, prefix: prefix.to_string() }),
                history_limits: Some(HistoryLimits { max_entries: n, use_max_age: age, max_age_days: days }),
            };
            let s = load(Some(stored), Platform::Other);
            let p = s.quick_pick_prefix.prefix.clone();
            assert_eq!(QuickPickPrefix::normalize_prefix(&p), Ok(p.clone()));
            let l = s.history_limits;
            assert_eq!(HistoryLimits::normalize(l.max_entries, l.use_max_age, l.max_age_days), Ok(l));
        }
    }
}

#[test]
fn normalized_prefix_is_stable() {
    let once = QuickPickPrefix::normalize_prefix("\t !! \n").unwrap();
    assert_eq!(QuickPickPrefix::normalize_prefix(&once), Ok(once.clone()));
}

#[test]
fn migrate_hotkey_shapes() {
    let h = hotkey(false, true, false, false, "z");
    assert_eq!(migrate_picker_hotkey(StoredHotkey::Object(Some(h.clone())), Platform::Other), h);
    assert_eq!(
        migrate_picker_hotkey(StoredHotkey::Object(None), Platform::MacOs),
        PickerHotkey::default_for(Platform::MacOs)
    );
    assert_eq!(
        migrate_picker_hotkey(StoredHotkey::Preset("other".to_string()), Platform::MacOs),
        PickerHotkey::default_for(Platform::MacOs)
    );
}

#[test]
fn snapshot_reports_settings() {
    let cfg = Settings::default_for(Platform::MacOs);
    let s = snapshot(cfg, Platform::MacOs);
    assert_eq!(s.active_label, "⌘⇧E");
    assert_eq!(s.picker_hotkey, PickerHotkey::default_for(Platform::MacOs));
    assert!(!s.quick_pick_prefix_enabled);
    assert_eq!(s.quick_pick_prefix, ".");
    assert_eq!(s.history_max_entries, 500);
    assert!(s.history_use_max_age);
    assert_eq!(s.history_max_age_days, 14);
}

#[test]
fn apply_hotkey_swaps_registration() {
    let mut state = PickerHotkeyState::new();
    let first = apply_picker_hotkey(&state, &PickerHotkey::default_for(Platform::Other)).unwrap();
    assert_eq!(first.unregister, None);
    assert_eq!(first.register, "Control+Shift+KeyE");
    state.record_registered(first.register);
    let second = apply_picker_hotkey(&state, &hotkey(false, true, false, false, "p")).unwrap();
    assert_eq!(second.unregister, Some("Control+Shift+KeyE".to_string()));
    assert_eq!(second.register, "Alt+KeyP");
    let bad = apply_picker_hotkey(&state, &hotkey(false, false, false, false, "p"));
    assert_eq!(bad.err(), Some("enable at least one modifier (Shift, Alt, Cmd, or Ctrl)".to_string()));
}

#[test]
fn valid_settings_load_back_unchanged() {
    let h = hotkey(false, true, true, false, "K");
    let q = QuickPickPrefix { enabled: true, prefix: ";;".to_string() };
    let l = HistoryLimits { max_entries: 42, use_max_age: true, max_age_days: 3 };
    let stored = StoredSettings {
        picker_hotkey: Some(StoredHotkey::Object(Some(h.clone()))),
        quick_pick_prefix: Some(q.clone()),
        history_limits: Some(l),
    };
    let s = load(Some(stored), Platform::MacOs);
    assert_eq!(s.picker_hotkey, h);
    assert_eq!(s.quick_pick_prefix, q);
    assert_eq!(s.history_limits, l);
}
