use rustshot::config::Config;
use rustshot::encode::OutputFormat;
use rustshot::workflow::{
    autosave_candidate, autosave_file_name, commit_settings, AUTOSAVE_CANDIDATES, ensure_extension, extension_of, output_format_from_path,
    set_extension, tray_icon_rgba, CommitError, CommitStage, SettingsCommitBackend, TRAY_ICON_SIZE,
};

#[derive(Default)]
struct FakeSettingsBackend {
    registered: bool,
    fail_activate: bool,
    fail_persist: bool,
    fail_restore: bool,
    operations: Vec<&'static str>,
    restored_registration_state: Option<bool>,
}

impl SettingsCommitBackend for FakeSettingsBackend {
    fn shortcuts_registered(&self) -> bool {
        self.registered
    }

    fn activate_shortcuts(&mut self, _config: &Config) -> Result<(), String> {
        self.operations.push("activate");
        if self.fail_activate {
            return Err("activation failed".to_owned());
        }
        self.registered = true;
        Ok(())
    }

    fn persist_settings(&mut self, _config: &Config) -> Result<(), String> {
        self.operations.push("persist");
        if self.fail_persist {
            return Err("persistence failed".to_owned());
        }
        Ok(())
    }

    fn restore_shortcuts(&mut self, _config: &Config, should_be_registered: bool) -> Result<(), String> {
        self.operations.push("restore");
        self.restored_registration_state = Some(should_be_registered);
        if self.fail_restore {
            return Err("rollback failed".to_owned());
        }
        self.registered = should_be_registered;
        Ok(())
    }
}

#[test]
fn save_extension_matches_the_selected_encoder() {
    assert_eq!(ensure_extension("capture.png", "jpg"), "capture.jpg");
    assert_eq!(ensure_extension("capture", "png"), "capture.png");
    assert_eq!(ensure_extension("capture.PNG", "png"), "capture.PNG");
}

#[test]
fn save_format_follows_the_extension_selected_in_the_dialog() {
    assert_eq!(output_format_from_path("capture.png"), Some(OutputFormat::Png));
    assert_eq!(output_format_from_path("capture.JPEG"), Some(OutputFormat::Jpeg));
    assert_eq!(output_format_from_path("capture.unsupported"), None);
}

#[test]
fn settings_commit_validates_before_side_effects() {
    let previous = Config::default();
    let mut invalid = previous.clone();
    invalid.jpeg_quality = 0;
    let mut backend = FakeSettingsBackend::default();

    assert!(commit_settings(&mut backend, &previous, invalid).is_err());
    assert!(backend.operations.is_empty());
}

#[test]
fn settings_commit_activates_then_persists() {
    let previous = Config::default();
    let mut candidate = previous.clone();
    candidate.jpeg_quality = 77;
    let mut backend = FakeSettingsBackend { registered: true, ..Default::default() };

    let committed = commit_settings(&mut backend, &previous, candidate.clone())
        .expect("valid settings should commit");

    assert_eq!(committed, candidate);
    assert_eq!(backend.operations, ["activate", "persist"]);
}

#[test]
fn activation_failure_restores_previous_shortcuts() {
    let previous = Config::default();
    let mut backend =
        FakeSettingsBackend { registered: true, fail_activate: true, ..Default::default() };

    let error = commit_settings(&mut backend, &previous, previous.clone())
        .expect_err("activation failure should abort");

    assert_eq!(backend.operations, ["activate", "restore"]);
    assert_eq!(backend.restored_registration_state, Some(true));
    assert!(error.message().contains("previous shortcut state was restored"));
}

#[test]
fn persistence_failure_restores_an_initially_unregistered_state() {
    let previous = Config::default();
    let mut backend = FakeSettingsBackend { fail_persist: true, ..Default::default() };

    let error = commit_settings(&mut backend, &previous, previous.clone())
        .expect_err("persistence failure should abort");

    assert_eq!(backend.operations, ["activate", "persist", "restore"]);
    assert_eq!(backend.restored_registration_state, Some(false));
    assert!(!backend.registered);
    assert!(error.message().contains("previous shortcut state was restored"));
}

#[test]
fn rollback_failure_is_reported_with_the_original_failure() {
    let previous = Config::default();
    let mut backend = FakeSettingsBackend {
        registered: true,
        fail_persist: true,
        fail_restore: true,
        ..Default::default()
    };

    let error = commit_settings(&mut backend, &previous, previous.clone())
        .expect_err("double failure should abort");
    let description = error.message();

    assert!(description.contains("persistence failed"));
    assert!(description.contains("rollback failed"));
    assert_eq!(
        error,
        CommitError::RollbackFailed {
            stage: CommitStage::Persist,
            reason: "persistence failed".to_owned(),
            rollback: "rollback failed".to_owned()
        }
    );
}

#[test]
fn extensions_follow_windows_path_rules() {
    assert_eq!(extension_of("C:\\shots\\capture.tar.png").as_deref(), Some("png"));
    assert_eq!(extension_of("C:\\shots.d\\capture"), None);
    assert_eq!(extension_of("folder/.hidden"), None);
    assert_eq!(extension_of(".."), None);
    assert_eq!(extension_of("name."), Some(String::new()));
    assert_eq!(set_extension("C:\\shots.d\\capture", "jpg"), "C:\\shots.d\\capture.jpg");
    assert_eq!(set_extension("capture.png", ""), "capture");
    assert_eq!(set_extension("folder\\", "png"), "folder.png");
}

#[test]
fn file_names_skip_trailing_separators_and_current_directories() {
    assert_eq!(ensure_extension("capture/", "png"), "capture.png");
    assert_eq!(output_format_from_path(&ensure_extension("capture/", "png")), Some(OutputFormat::Png));
    assert_eq!(ensure_extension("shots/capture/.", "jpg"), "shots/capture.jpg");
    assert_eq!(ensure_extension("shots\\capture.PNG\\", "png"), "shots\\capture.PNG\\");
    assert_eq!(extension_of("shots/capture.jpeg/./"), Some("jpeg".to_owned()));
    assert_eq!(set_extension("C:", "png"), "C:");
    assert_eq!(set_extension("C:capture", "png"), "C:capture.png");
    assert_eq!(set_extension("shots/..", "png"), "shots/..");
    assert_eq!(set_extension(".", "png"), ".");
    assert_eq!(set_extension("/", "png"), "/");
}

#[test]
fn an_ensured_extension_selects_its_format() {
    for path in ["shot", "shot.bmp", "dir.v2/shot", "shot.JPEG", "shot/", "dir/shot.png/."] {
        for format in [OutputFormat::Png, OutputFormat::Jpeg] {
            let named = ensure_extension(path, format.extension());
            assert_eq!(output_format_from_path(&named), Some(format));
        }
    }
}

#[test]
fn autosave_names_count_up_from_the_bare_stem() {
    assert_eq!(autosave_file_name("Rustshot_2024", 0, "png"), "Rustshot_2024.png");
    assert_eq!(autosave_file_name("Rustshot_2024", 12, "jpg"), "Rustshot_2024_12.jpg");
}

#[test]
fn commit_errors_describe_what_happened() {
    let restored = CommitError::Restored { stage: CommitStage::Activate, reason: "busy".to_owned() };
    assert_eq!(
        restored.message(),
        "could not activate the new shortcuts; the previous shortcut state was restored: busy"
    );
    let failed = CommitError::RollbackFailed {
        stage: CommitStage::Activate,
        reason: "busy".to_owned(),
        rollback: "gone".to_owned(),
    };
    assert_eq!(
        failed.message(),
        "could not activate the new shortcuts (busy); restoring the previous shortcut state also failed (gone)"
    );
}

#[test]
fn autosave_candidates_count_up_then_fall_back_to_the_process() {
    assert_eq!(autosave_candidate("Rustshot_1", "png", 0, 9), "Rustshot_1.png");
    assert_eq!(autosave_candidate("Rustshot_1", "png", 2, 9), "Rustshot_1_2.png");
    assert_eq!(autosave_candidate("Rustshot_1", "jpg", AUTOSAVE_CANDIDATES, 0), "Rustshot_1_0.jpg");
}

#[test]
fn tray_icon_is_a_blue_square_with_a_white_frame() {
    let rgba = tray_icon_rgba();
    let size = TRAY_ICON_SIZE as usize;
    assert_eq!(rgba.len(), size * size * 4);
    let pixel = |x: usize, y: usize| &rgba[(y * size + x) * 4..(y * size + x) * 4 + 4];
    assert_eq!(pixel(0, 0), &[0, 0, 0, 0]);
    assert_eq!(pixel(3, 3), &[38, 119, 222, 255]);
    assert_eq!(pixel(8, 9), &[255, 255, 255, 255]);
    assert_eq!(pixel(15, 15), &[38, 119, 222, 255]);
    assert_eq!(pixel(28, 28), &[38, 119, 222, 255]);
    assert_eq!(pixel(29, 28), &[0, 0, 0, 0]);
}
