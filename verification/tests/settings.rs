use rustshot::config::{Config, MonitorScope, PngCompression, ScreenshotFormat, Shortcut};
use rustshot::settings::{
    hidden_quality_replacement, is_modifier_key, recorded_key, shortcut_from_virtual_key, virtual_key_name, wants_all_dialog_keys,
    RecordedKey, SettingsValues, ShortcutModifiers, IDC_JPEG_QUALITY, IDC_MONITOR_SCOPE, IDC_REGION_SHORTCUT,
    VK_BACK, VK_CONTROL, VK_F1, VK_F4, VK_RETURN, VK_SHIFT, VK_SNAPSHOT, VK_TAB,
};

#[test]
fn shortcut_recorder_builds_canonical_modifier_order() {
    let shortcut = shortcut_from_virtual_key(
        VK_F1 + 10,
        false,
        ShortcutModifiers { shift: true, control: true, ..Default::default() },
    )
    .expect("F11 should be recordable");

    assert_eq!(shortcut.as_str(), "shift+control+F11");
}

#[test]
fn shortcut_recorder_supports_ctrl_shift_backspace() {
    let shortcut = shortcut_from_virtual_key(
        VK_BACK,
        false,
        ShortcutModifiers { shift: true, control: true, ..Default::default() },
    )
    .expect("Ctrl+Shift+Backspace should be recordable");

    assert_eq!(shortcut.as_str(), "shift+control+Backspace");
}

#[test]
fn shortcut_recorder_tracks_multiple_held_modifiers() {
    let mut modifiers = ShortcutModifiers::default();

    assert!(modifiers.set_key(VK_CONTROL, true));
    assert!(modifiers.set_key(VK_SHIFT, true));
    assert_eq!(modifiers, ShortcutModifiers { shift: true, control: true, ..Default::default() });

    assert!(modifiers.set_key(VK_SHIFT, false));
    assert!(!modifiers.shift);
    assert!(modifiers.control);
}

#[test]
fn shortcut_recorder_supports_super_and_extended_keys() {
    let print_screen = shortcut_from_virtual_key(
        VK_SNAPSHOT,
        true,
        ShortcutModifiers { super_key: true, ..Default::default() },
    )
    .expect("Print Screen should be recordable");
    let numpad_enter = shortcut_from_virtual_key(
        VK_RETURN,
        true,
        ShortcutModifiers { control: true, ..Default::default() },
    )
    .expect("extended Enter should be recordable");

    assert_eq!(print_screen.as_str(), "super+PrintScreen");
    assert_eq!(numpad_enter.as_str(), "control+NumpadEnter");
}

#[test]
fn shortcut_recorder_preserves_dialog_navigation() {
    assert!(!wants_all_dialog_keys(VK_TAB, ShortcutModifiers { shift: true, ..Default::default() }));
    assert!(wants_all_dialog_keys(VK_TAB, ShortcutModifiers { control: true, ..Default::default() }));
    assert!(!wants_all_dialog_keys(VK_F4, ShortcutModifiers { alt: true, ..Default::default() }));
}

#[test]
fn unsupported_virtual_keys_are_not_recorded() {
    assert!(shortcut_from_virtual_key(0xff, false, ShortcutModifiers::default()).is_none());
}

fn sample_config() -> Config {
    let mut config = Config::default();
    config.fullscreen_shortcut = Shortcut::new("alt+F8").unwrap();
    config.region_shortcut = Shortcut::new("control+shift+KeyR").unwrap();
    config.autosave_directory = "C:\\Capturas\\área com espaços".to_owned();
    config.image_format = ScreenshotFormat::Jpeg;
    config.jpeg_quality = 73;
    config.png_compression = PngCompression::Best;
    config.monitor_scope = MonitorScope::VirtualDesktop;
    config.include_cursor = false;
    config
}

#[test]
fn every_config_field_round_trips_through_settings_values() {
    let expected = sample_config();

    let actual = SettingsValues::from_config(&expected)
        .into_config(&expected)
        .expect("settings values should be valid");

    assert_eq!(actual, expected);
}

#[test]
fn invalid_quality_is_rejected_even_when_png_is_selected() {
    let mut values = SettingsValues::from_config(&Config::default());
    values.image_format_index = 0;
    values.jpeg_quality = "101".to_owned();

    let error = values.into_config(&Config::default()).unwrap_err();
    assert_eq!(error.control_id, IDC_JPEG_QUALITY);
    assert_eq!(error.message, "Settings are invalid.\n\nJPEG quality must be between 1 and 100, got 101");
}

#[test]
fn duplicate_shortcuts_are_rejected() {
    let mut values = SettingsValues::from_config(&Config::default());
    values.region_shortcut = values.fullscreen_shortcut.clone();

    let error = values.into_config(&Config::default()).unwrap_err();
    assert_eq!(error.control_id, IDC_REGION_SHORTCUT);
}

#[test]
fn enum_indices_are_checked() {
    let mut values = SettingsValues::from_config(&Config::default());
    values.monitor_scope_index = usize::MAX;

    let error = values.into_config(&Config::default()).unwrap_err();
    assert_eq!(error.control_id, IDC_MONITOR_SCOPE);
    assert_eq!(error.message, "Full-screen scope selection is invalid");
}

#[test]
fn unparsable_quality_names_the_accepted_range() {
    let mut values = SettingsValues::from_config(&Config::default());
    values.jpeg_quality = " 9x ".to_owned();
    let error = values.into_config(&Config::default()).unwrap_err();
    assert_eq!(error.control_id, IDC_JPEG_QUALITY);
    assert_eq!(error.message, "JPEG quality must be a number from 1 to 100");
}

#[test]
fn quality_text_is_trimmed_before_parsing() {
    let mut values = SettingsValues::from_config(&Config::default());
    values.jpeg_quality = " +42 ".to_owned();
    let config = values.into_config(&Config::default()).unwrap();
    assert_eq!(config.jpeg_quality, 42);
}

#[test]
fn invalid_shortcut_text_names_the_field_and_the_input() {
    let mut values = SettingsValues::from_config(&Config::default());
    values.region_shortcut = "  control+nonsense ".to_owned();
    let error = values.into_config(&Config::default()).unwrap_err();
    assert_eq!(error.control_id, IDC_REGION_SHORTCUT);
    assert!(error
        .message
        .starts_with("Region shortcut is invalid.\n\ninvalid shortcut `control+nonsense`: "));
}

#[test]
fn values_show_the_configuration() {
    let values = SettingsValues::from_config(&sample_config());
    assert_eq!(values.fullscreen_shortcut, "alt+F8");
    assert_eq!(values.region_shortcut, "shift+control+KeyR");
    assert_eq!(values.image_format_index, 1);
    assert_eq!(values.jpeg_quality, "73");
    assert_eq!(values.png_compression_index, 2);
    assert_eq!(values.monitor_scope_index, 1);
    assert!(!values.include_cursor);
}

#[test]
fn virtual_keys_are_named_like_the_hotkey_parser_expects() {
    assert_eq!(virtual_key_name(0x41, false).as_deref(), Some("KeyA"));
    assert_eq!(virtual_key_name(0x39, false).as_deref(), Some("Digit9"));
    assert_eq!(virtual_key_name(0x87, false).as_deref(), Some("F24"));
    assert_eq!(virtual_key_name(0x65, false).as_deref(), Some("Numpad5"));
    assert_eq!(virtual_key_name(VK_RETURN, false).as_deref(), Some("Enter"));
    assert_eq!(virtual_key_name(0xde, false).as_deref(), Some("Quote"));
    assert_eq!(virtual_key_name(0x07, false), None);
}

#[test]
fn modifier_keys_are_recognized() {
    assert!(is_modifier_key(VK_SHIFT));
    assert!(is_modifier_key(0xa5));
    assert!(!is_modifier_key(VK_TAB));
    let mut modifiers = ShortcutModifiers::default();
    assert!(!modifiers.set_key(VK_TAB, true));
    assert_eq!(modifiers, ShortcutModifiers::default());
    let both = ShortcutModifiers { alt: true, ..Default::default() }
        .union(ShortcutModifiers { super_key: true, ..Default::default() });
    assert_eq!(both, ShortcutModifiers { alt: true, super_key: true, ..Default::default() });
}

#[test]
fn recorded_keys_leave_alt_f4_to_the_dialog_and_skip_modifiers() {
    let alt = ShortcutModifiers { alt: true, ..Default::default() };
    assert_eq!(recorded_key(VK_F4, false, false, alt), RecordedKey::PassThrough);
    assert_eq!(recorded_key(VK_SHIFT, false, false, ShortcutModifiers::default()), RecordedKey::Swallow);
    assert_eq!(recorded_key(VK_F1, true, false, ShortcutModifiers::default()), RecordedKey::Swallow);
    match recorded_key(VK_F4, false, false, ShortcutModifiers { control: true, ..Default::default() }) {
        RecordedKey::Record(shortcut) => assert_eq!(shortcut.as_str(), "control+F4"),
        other => panic!("expected a recorded shortcut, got {other:?}"),
    }
    assert_eq!(recorded_key(0xff, false, false, ShortcutModifiers::default()), RecordedKey::Reject);
}

#[test]
fn hidden_jpeg_quality_is_reset_only_while_png_is_selected() {
    assert_eq!(hidden_quality_replacement(0, "abc"), Some("90".to_string()));
    assert_eq!(hidden_quality_replacement(0, "0"), Some("90".to_string()));
    assert_eq!(hidden_quality_replacement(0, " 75 "), None);
    assert_eq!(hidden_quality_replacement(1, "abc"), None);
}
