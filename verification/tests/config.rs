use rustshot::config::{
    Config, ConfigError, ConfigValidationError, EditorTool, MonitorScope, PngCompression,
    RgbColor, ScreenshotFormat, Shortcut, ShortcutBinding, ShortcutError, CURRENT_CONFIG_VERSION,
    DEFAULT_JPEG_QUALITY,
};

#[test]
fn shortcut_parsing_canonicalizes_aliases_and_whitespace() {
    let shortcut = Shortcut::new(" Ctrl + Shift + KeyS ").expect("shortcut should be valid");
    let equivalent = Shortcut::new("shift+control+KeyS").expect("shortcut should be valid");

    assert_eq!(shortcut, equivalent);
    assert_eq!(shortcut.as_str(), "shift+control+KeyS");
}

#[test]
fn invalid_shortcut_is_rejected() {
    let error =
        Shortcut::new("control+definitely-not-a-key").expect_err("unknown key should be rejected");

    assert!(error.message().contains("invalid shortcut"));
    let ShortcutError::Invalid { shortcut, .. } = error;
    assert_eq!(shortcut, "control+definitely-not-a-key");
}

#[test]
fn duplicate_shortcuts_are_rejected_after_canonicalization() {
    let mut config = Config::default();
    config.fullscreen_shortcut = Shortcut::new("control+shift+KeyS").expect("shortcut should be valid");
    config.region_shortcut = Shortcut::new("shift+ctrl+KeyS").expect("shortcut should be valid");

    assert!(matches!(
        config.validate(),
        Err(ConfigValidationError::DuplicateShortcuts { .. })
    ));
}

#[test]
fn tampered_invalid_shortcut_is_rejected_by_config_validation() {
    let mut config = Config::default();
    config.region_shortcut = Shortcut("not-a-real-key".to_owned());

    assert!(matches!(
        config.validate(),
        Err(ConfigValidationError::InvalidShortcut { .. })
    ));
}

#[test]
fn jpeg_quality_bounds_are_enforced() {
    let mut config = Config::default();
    config.jpeg_quality = 0;
    assert_eq!(config.validate(), Err(ConfigValidationError::InvalidJpegQuality(0)));

    config.jpeg_quality = 100;
    assert!(config.validate().is_ok());
}

#[test]
fn editor_width_index_is_validated() {
    let mut config = Config::default();
    config.editor_stroke_width = 4;
    assert_eq!(config.validate(), Err(ConfigValidationError::InvalidEditorStrokeWidth(4)));
}

#[test]
fn empty_autosave_directory_is_rejected() {
    let mut config = Config::default();
    config.autosave_directory = String::new();

    assert_eq!(config.validate(), Err(ConfigValidationError::EmptyAutosaveDirectory));
}

#[test]
fn missing_config_returns_defaults() {
    assert_eq!(
        Config::load(None).expect("missing config should use defaults"),
        Config::default()
    );
}

#[test]
fn unsupported_future_config_schema_is_rejected() {
    let mut config = Config::default();
    config.config_version = 2;
    assert_eq!(
        Config::load(Some(config)),
        Err(ConfigError::Validation(ConfigValidationError::UnsupportedConfigVersion {
            found: 2,
            supported: 1
        }))
    );
}

#[test]
fn load_rejects_invalid_shortcut_text() {
    let mut config = Config::default();
    config.fullscreen_shortcut = Shortcut("control+definitely-not-a-key".to_owned());
    assert!(matches!(
        Config::load(Some(config)),
        Err(ConfigError::Validation(ConfigValidationError::InvalidShortcut {
            binding: ShortcutBinding::Fullscreen,
            ..
        }))
    ));
}

#[test]
fn validation_with_a_file_in_place_of_the_directory_fails() {
    let config = Config::default();
    assert_eq!(
        config.validate_with(true),
        Err(ConfigValidationError::AutosaveDirectoryIsFile(config.autosave_directory.clone()))
    );
    assert_eq!(config.validate_with(false), Ok(()));
}

#[test]
fn defaults_match_the_documented_settings() {
    let config = Config::default();
    assert_eq!(config.config_version, CURRENT_CONFIG_VERSION);
    assert_eq!(config.fullscreen_shortcut.as_str(), "shift+control+F11");
    assert_eq!(config.region_shortcut.as_str(), "shift+control+F10");
    assert_eq!(config.image_format, ScreenshotFormat::Png);
    assert_eq!(config.jpeg_quality, DEFAULT_JPEG_QUALITY);
    assert_eq!(config.png_compression, PngCompression::Default);
    assert_eq!(config.monitor_scope, MonitorScope::CursorMonitor);
    assert!(config.include_cursor);
    assert!(!config.region_auto_copy);
    assert!(!config.region_autosave);
    assert_eq!(config.last_editor_tool, EditorTool::Pen);
    assert_eq!(config.editor_color, RgbColor::new(255, 64, 64));
    assert_eq!(config.editor_stroke_width, 1);
    assert!(!config.autosave_directory.is_empty());
}

#[test]
fn saving_checks_validation_first() {
    let mut config = Config::default();
    assert_eq!(config.save(), Ok(()));
    config.jpeg_quality = 101;
    assert_eq!(
        config.save(),
        Err(ConfigError::Validation(ConfigValidationError::InvalidJpegQuality(101)))
    );
}

#[test]
fn validation_errors_describe_themselves() {
    assert_eq!(
        ConfigValidationError::UnsupportedConfigVersion { found: 2, supported: 1 }.message(),
        "configuration schema 2 is not supported; this release supports schema 1"
    );
    assert_eq!(
        ConfigValidationError::InvalidShortcut {
            binding: ShortcutBinding::Region,
            shortcut: "x".to_owned(),
            reason: "bad".to_owned()
        }
        .message(),
        "invalid region shortcut `x`: bad"
    );
    assert_eq!(
        ConfigValidationError::DuplicateShortcuts { shortcut: "alt+F8".to_owned() }.message(),
        "fullscreen and region shortcuts must differ (both are `alt+F8`)"
    );
    assert_eq!(
        ConfigValidationError::InvalidJpegQuality(0).message(),
        "JPEG quality must be between 1 and 100, got 0"
    );
    assert_eq!(
        ConfigValidationError::EmptyAutosaveDirectory.message(),
        "autosave directory must not be empty"
    );
    assert_eq!(
        ConfigValidationError::AutosaveDirectoryIsFile("C:\\x".to_owned()).message(),
        "autosave directory points to an existing file: `C:\\x`"
    );
    assert_eq!(
        ConfigValidationError::InvalidEditorStrokeWidth(9).message(),
        "editor stroke-width index must be between 0 and 3, got 9"
    );
    assert_eq!(
        ConfigError::Serialize("oops".to_owned()).message(),
        "failed to serialize configuration: oops"
    );
    assert_eq!(
        ConfigError::ConfigurationDirectoryUnavailable.message(),
        "could not determine the per-user Rustshot configuration directory"
    );
}

#[test]
fn formats_name_their_extensions() {
    assert_eq!(ScreenshotFormat::Png.extension(), "png");
    assert_eq!(ScreenshotFormat::Jpeg.extension(), "jpg");
    assert_eq!(ShortcutBinding::Fullscreen.name(), "fullscreen");
}

#[test]
fn shortcuts_convert_to_the_hotkeys_that_get_registered() {
    let shortcut = Shortcut::new("control+shift+F11").expect("default shortcut is valid");
    let hotkey = shortcut.as_hotkey().expect("a parsed shortcut converts");
    assert_eq!(hotkey, "control+shift+F11".parse::<global_hotkey::hotkey::HotKey>().unwrap());
    match Shortcut("control+".to_owned()).as_hotkey() {
        Err(ShortcutError::Invalid { shortcut, .. }) => assert_eq!(shortcut, "control+"),
        Ok(_) => panic!("an unfinished chord must not convert"),
    }
}

#[test]
fn settings_file_and_default_autosave_folder_have_their_names() {
    if let Ok(path) = rustshot::config::config_path() {
        assert!(path.ends_with("config.toml"), "{path}");
        assert!(path.len() > "config.toml".len());
    }
    let directory = rustshot::config::default_autosave_directory();
    assert!(directory.ends_with("Rustshot") || directory.ends_with("captures"), "{directory}");
}

#[test]
fn validation_after_parsing_uses_the_parser_answers() {
    let config = Config::default();
    assert_eq!(
        config.validate_parsed(Ok("alt+F8".to_owned()), Ok("alt+F8".to_owned()), false),
        Err(ConfigValidationError::DuplicateShortcuts { shortcut: config.fullscreen_shortcut.0.clone() })
    );
    assert_eq!(
        config.validate_parsed(Ok("alt+F8".to_owned()), Err("no key".to_owned()), false),
        Err(ConfigValidationError::InvalidShortcut {
            binding: ShortcutBinding::Region,
            shortcut: config.region_shortcut.0.clone(),
            reason: "no key".to_owned(),
        })
    );
    assert_eq!(config.validate_parsed(Ok("alt+F8".to_owned()), Ok("alt+F9".to_owned()), false), Ok(()));
    assert_eq!(
        config.validate_parsed(Ok("alt+F8".to_owned()), Ok("alt+F9".to_owned()), true),
        Err(ConfigValidationError::AutosaveDirectoryIsFile(config.autosave_directory.clone()))
    );
}
