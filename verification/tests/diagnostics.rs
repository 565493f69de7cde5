use rustshot::config::Config;
use rustshot::diagnostics::{
    bounded_log_message, error_log_line, recent_log_section, report_text, tail_lines,
    ReportEnvironment, MAX_LOG_MESSAGE_CHARS,
};

fn environment() -> ReportEnvironment {
    ReportEnvironment {
        version: "1.0.0".to_owned(),
        architecture: "x86_64".to_owned(),
        operating_system: "windows".to_owned(),
        profile: "release".to_owned(),
        config_path: Ok(r"C:\Users\me\AppData\Roaming\Rustshot\config.toml".to_owned()),
    }
}

#[test]
fn diagnostic_report_contains_version_schema_and_recent_log() {
    let report = report_text(
        &Config::default(),
        &environment(),
        r"C:\Rustshot\rustshot.log",
        "a recent error\n",
    );

    assert!(report.contains("Version: 1.0.0"));
    assert!(report.contains("Configuration schema: 1"));
    assert!(report.contains("a recent error"));
}

#[test]
fn log_tail_is_bounded_to_the_requested_line_count() {
    assert_eq!(tail_lines("one\ntwo\nthree\n", 2), "two\nthree\n");
}

#[test]
fn log_tail_keeps_every_line_of_a_short_log() {
    assert_eq!(tail_lines("one\r\ntwo", 5), "one\ntwo\n");
    assert_eq!(tail_lines("", 3), "\n");
    assert_eq!(tail_lines("one\ntwo\n", 0), "\n");
    assert_eq!(tail_lines("a\n\nb\n", 2), "\nb\n");
}

#[test]
fn report_lists_paths_and_settings_line_by_line() {
    let report = report_text(
        &Config::default(),
        &environment(),
        r"C:\Rustshot\rustshot.log",
        "tail\n",
    );
    let lines: Vec<&str> = report.lines().collect();
    assert_eq!(lines[0], "Rustshot diagnostics");
    assert_eq!(lines[1], "====================");
    assert_eq!(lines[3], "Target: x86_64-windows");
    assert_eq!(lines[4], "Build profile: release");
    assert_eq!(lines[7], r"Diagnostic log: C:\Rustshot\rustshot.log");
    assert!(report.contains("Image format: Png\n"));
    assert!(report.contains("Monitor scope: CursorMonitor\n"));
    assert!(report.ends_with("\nRecent diagnostic log\n---------------------\ntail\n"));
}

#[test]
fn report_explains_an_unknown_settings_path() {
    let mut environment = environment();
    environment.config_path = Err("no home directory".to_owned());
    let report = report_text(&Config::default(), &environment, "log", "");
    assert!(report.contains("Configuration path: unavailable (no home directory)\n"));
}

#[test]
fn missing_log_is_reported_as_unavailable() {
    assert_eq!(recent_log_section(None), "No diagnostic log is available.\n");
    assert_eq!(recent_log_section(Some("x\ny\n")), "x\ny\n");
}

#[test]
fn error_entries_stay_on_one_line() {
    assert_eq!(
        error_log_line("Capture failed", "first\r\nsecond\nthird"),
        "ERROR Capture failed: first  second third"
    );
}

#[test]
fn log_messages_are_cut_to_the_character_limit() {
    let long: String = "é".repeat(MAX_LOG_MESSAGE_CHARS + 5);
    let bounded = bounded_log_message(&long);
    assert_eq!(bounded.chars().count(), MAX_LOG_MESSAGE_CHARS);
    assert_eq!(bounded_log_message("short"), "short");
}
