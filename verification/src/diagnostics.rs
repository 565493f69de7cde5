//! The text of the local diagnostic log and of the support report. Writing
//! the files, and the clock that stamps log lines, belong to the
//! application.
use crate::config::{Config, MonitorScope, ScreenshotFormat};
use crate::text::{append_str, chars_of, decimal_text, push_char, string_from_chars, u64_to_decimal};
use vstd::prelude::*;

verus! {

/// Longest log message kept, in characters.
pub const MAX_LOG_MESSAGE_CHARS: usize = 8192;

/// Lines of the log that a support report quotes.
pub const REPORT_LOG_LINES: usize = 40;

/// Line breaks turned into spaces.
pub open spec fn single_line(text: Seq<char>) -> Seq<char> {
    text.map_values(|c: char| if c == '\r' || c == '\n' { ' ' } else { c })
}

/// The log entry of an error: `ERROR`, the title, and the description on
/// one line.
pub open spec fn error_entry(title: Seq<char>, description: Seq<char>) -> Seq<char> {
    "ERROR "@ + title + ": "@ + single_line(description)
}

/// The log entry that records an error. Screenshots and clipboard contents
/// never enter the log.
pub fn error_log_line(title: &str, description: &str) -> (line: String)
    ensures
        line@ == error_entry(title@, description@),
{
    let mut line = "ERROR ".to_owned();
    append_str(&mut line, title);
    append_str(&mut line, ": ");
    let characters = chars_of(description);
    let ghost start = line@;
    let mut index: usize = 0;
    while index < characters.len()
        invariant
            characters@ == description@,
            index <= characters@.len(),
            line@ == start + single_line(description@).take(index as int),
        decreases characters@.len() - index,
    {
        let c = characters[index];
        push_char(&mut line, if c == '\r' || c == '\n' { ' ' } else { c });
        proof {
            assert(single_line(description@).take(index + 1) =~= single_line(description@).take(index as int).push(
                single_line(description@)[index as int],
            ));
        }
        index += 1;
    }
    proof {
        assert(single_line(description@).take(description@.len() as int) =~= single_line(description@));
    }
    line
}

/// A log message cut to its first [`MAX_LOG_MESSAGE_CHARS`] characters.
pub fn bounded_log_message(message: &str) -> (bounded: String)
    ensures
        bounded@ == if message@.len() <= MAX_LOG_MESSAGE_CHARS {
            message@
        } else {
            message@.take(MAX_LOG_MESSAGE_CHARS as int)
        },
{
    let characters = chars_of(message);
    if characters.len() <= MAX_LOG_MESSAGE_CHARS {
        return string_from_chars(characters.as_slice());
    }
    let mut kept: Vec<char> = Vec::new();
    let mut index: usize = 0;
    while index < MAX_LOG_MESSAGE_CHARS
        invariant
            characters@ == message@,
            MAX_LOG_MESSAGE_CHARS < characters@.len(),
            index <= MAX_LOG_MESSAGE_CHARS,
            kept@ == message@.take(index as int),
        decreases MAX_LOG_MESSAGE_CHARS - index,
    {
        kept.push(characters[index]);
        proof {
            assert(message@.take(index + 1) =~= message@.take(index as int).push(message@[index as int]));
        }
        index += 1;
    }
    string_from_chars(kept.as_slice())
}

/// Index of the first line feed in `text`, or its length.
pub open spec fn line_end(text: Seq<char>) -> int
    decreases text.len(),
{
    if text.len() == 0 || text[0] == '\n' {
        0
    } else {
        1 + line_end(text.drop_first())
    }
}

/// The lines of a text as `str::lines` gives them: split at line feeds, a
/// carriage return before a line feed dropped, and no empty line after a
/// final line feed.
pub open spec fn text_lines(text: Seq<char>) -> Seq<Seq<char>>
    decreases text.len(),
{
    if text.len() == 0 {
        Seq::empty()
    } else {
        let end = line_end(text);
        proof {
            lemma_line_end_bounds(text);
        }
        if end >= text.len() {
            seq![text]
        } else {
            let line = text.take(end);
            let line = if line.len() > 0 && line.last() == '\r' {
                line.drop_last()
            } else {
                line
            };
            seq![line] + text_lines(text.skip(end + 1))
        }
    }
}

/// Lines joined with line feeds, each followed by one.
pub open spec fn lines_text(lines: Seq<Seq<char>>) -> Seq<char>
    decreases lines.len(),
{
    if lines.len() == 0 {
        Seq::empty()
    } else {
        lines_text(lines.drop_last()) + lines.last() + seq!['\n']
    }
}

/// The last `count` lines of a log (all of them where it has fewer), each
/// ending in a line feed; just a line feed for an empty log.
pub open spec fn log_tail(contents: Seq<char>, count: nat) -> Seq<char> {
    let lines = text_lines(contents);
    let start = if lines.len() > count {
        lines.len() - count
    } else {
        0
    };
    let kept = lines.skip(start);
    if kept.len() == 0 {
        seq!['\n']
    } else {
        lines_text(kept)
    }
}

/// The first line feed of a text, where it has one, ends its first line.
pub proof fn lemma_line_end_bounds(text: Seq<char>)
    ensures
        0 <= line_end(text) <= text.len(),
        line_end(text) < text.len() ==> text[line_end(text)] == '\n',
        forall|i: int| 0 <= i < line_end(text) ==> text[i] != '\n',
    decreases text.len(),
{
    if text.len() > 0 && text[0] != '\n' {
        lemma_line_end_bounds(text.drop_first());
        assert forall|i: int| 0 <= i < line_end(text) implies text[i] != '\n' by {
            if i > 0 {
                assert(text[i] == text.drop_first()[i - 1]);
            }
        }
        if line_end(text) < text.len() {
            assert(text[line_end(text)] == text.drop_first()[line_end(text) - 1]);
        }
    }
}

/// Splits a text into lines as `str::lines` does.
pub fn split_lines(text: &[char]) -> (lines: Vec<Vec<char>>)
    ensures
        lines@.len() == text_lines(text@).len(),
        forall|k: int| 0 <= k < lines@.len() ==> #[trigger] lines@[k]@ == text_lines(text@)[k],
{
    let mut lines: Vec<Vec<char>> = Vec::new();
    let mut start: usize = 0;
    let ghost mut done: Seq<Seq<char>> = Seq::empty();
    proof {
        assert(text@.skip(0) =~= text@);
    }
    while start < text.len()
        invariant
            start <= text@.len(),
            lines@.len() == done.len(),
            forall|k: int| 0 <= k < lines@.len() ==> #[trigger] lines@[k]@ == done[k],
            done + text_lines(text@.skip(start as int)) == text_lines(text@),
        decreases text@.len() - start,
    {
        let ghost rest = text@.skip(start as int);
        proof {
            lemma_line_end_bounds(rest);
        }
        let mut end = start;
        while end < text.len() && text[end] != '\n'
            invariant
                start <= end <= text@.len(),
                rest == text@.skip(start as int),
                line_end(rest) >= end - start,
                0 <= line_end(rest) <= rest.len(),
                line_end(rest) < rest.len() ==> rest[line_end(rest)] == '\n',
                forall|i: int| 0 <= i < line_end(rest) ==> rest[i] != '\n',
            decreases text@.len() - end,
        {
            proof {
                assert(rest[end - start] == text@[end as int]);
            }
            end += 1;
        }
        proof {
            if end < text.len() {
                assert(rest[end - start] == '\n');
            }
            assert(line_end(rest) == end - start);
        }
        let mut line: Vec<char> = Vec::new();
        let mut index = start;
        while index < end
            invariant
                start <= index <= end <= text@.len(),
                line@ == text@.subrange(start as int, index as int),
            decreases end - index,
        {
            line.push(text[index]);
            proof {
                assert(text@.subrange(start as int, index + 1) =~= text@.subrange(start as int, index as int).push(
                    text@[index as int],
                ));
            }
            index += 1;
        }
        let ghost line_text: Seq<char>;
        if end < text.len() {
            if line.len() > 0 && line[line.len() - 1] == '\r' {
                line.pop();
            }
            proof {
                line_text = line@;
                assert(rest.take(end - start) =~= text@.subrange(start as int, end as int));
                assert(rest.skip(end - start + 1) =~= text@.skip(end + 1));
            }
            lines.push(line);
            proof {
                done = done.push(line_text);
                assert(done + text_lines(text@.skip(end + 1)) =~= text_lines(text@)) by {
                    assert(text_lines(rest) == seq![line_text] + text_lines(rest.skip(end - start + 1)));
                    assert(done.drop_last() + text_lines(rest) == text_lines(text@));
                }
            }
            start = end + 1;
        } else {
            proof {
                line_text = line@;
                assert(rest =~= text@.subrange(start as int, end as int));
                assert(text_lines(rest) == seq![line_text]);
                assert(text@.skip(end as int) =~= Seq::<char>::empty());
            }
            lines.push(line);
            proof {
                done = done.push(line_text);
                assert(done + text_lines(text@.skip(end as int)) =~= text_lines(text@));
            }
            start = end;
        }
    }
    proof {
        assert(text@.skip(start as int) =~= Seq::<char>::empty());
        assert(done =~= text_lines(text@));
    }
    lines
}

/// The last `count` lines of a log, for quoting in a support report.
pub fn tail_lines(contents: &str, count: usize) -> (tail: String)
    ensures
        tail@ == log_tail(contents@, count as nat),
{
    let characters = chars_of(contents);
    let lines = split_lines(characters.as_slice());
    let ghost all = text_lines(contents@);
    let start = if lines.len() > count {
        lines.len() - count
    } else {
        0
    };
    let ghost kept = all.skip(start as int);
    if start == lines.len() {
        proof {
            reveal_strlit("\n");
            assert(kept.len() == 0);
        }
        return "\n".to_owned();
    }
    let mut tail = String::new();
    let mut index = start;
    proof {
        assert(kept.take(0) =~= Seq::<Seq<char>>::empty());
    }
    while index < lines.len()
        invariant
            lines@.len() == all.len(),
            forall|k: int| 0 <= k < lines@.len() ==> #[trigger] lines@[k]@ == all[k],
            start <= index <= lines@.len(),
            kept == all.skip(start as int),
            tail@ == lines_text(kept.take(index - start)),
        decreases lines@.len() - index,
    {
        let line = &lines[index];
        let mut position: usize = 0;
        let ghost before_line = tail@;
        while position < line.len()
            invariant
                position <= line@.len(),
                tail@ == before_line + line@.take(position as int),
            decreases line@.len() - position,
        {
            push_char(&mut tail, line[position]);
            proof {
                assert(line@.take(position + 1) =~= line@.take(position as int).push(line@[position as int]));
            }
            position += 1;
        }
        push_char(&mut tail, '\n');
        proof {
            assert(line@.take(line@.len() as int) =~= line@);
            assert(kept.take(index + 1 - start).drop_last() =~= kept.take(index - start));
            assert(kept.take(index + 1 - start).last() == all[index as int]);
        }
        index += 1;
    }
    proof {
        assert(kept.take(lines@.len() - start) =~= kept);
    }
    tail
}

/// What the report quotes of the log: its last [`REPORT_LOG_LINES`] lines,
/// or a notice where the log could not be read.
pub fn recent_log_section(contents: Option<&str>) -> (section: String)
    ensures
        section@ == match contents {
            Some(log) => log_tail(log@, REPORT_LOG_LINES as nat),
            None => "No diagnostic log is available.\n"@,
        },
{
    match contents {
        Some(log) => tail_lines(log, REPORT_LOG_LINES),
        None => "No diagnostic log is available.\n".to_owned(),
    }
}

/// What a support report says about the build and the machine, as the
/// application knows them.
#[derive(Debug)]
pub struct ReportEnvironment {
    pub version: String,
    pub architecture: String,
    pub operating_system: String,
    pub profile: String,
    /// The settings path, or why it is unknown.
    pub config_path: Result<String, String>,
}

pub open spec fn format_name(format: ScreenshotFormat) -> Seq<char> {
    match format {
        ScreenshotFormat::Png => "Png"@,
        ScreenshotFormat::Jpeg => "Jpeg"@,
    }
}

pub open spec fn scope_name(scope: MonitorScope) -> Seq<char> {
    match scope {
        MonitorScope::CursorMonitor => "CursorMonitor"@,
        MonitorScope::VirtualDesktop => "VirtualDesktop"@,
    }
}

pub open spec fn flag_text(flag: bool) -> Seq<char> {
    if flag {
        "true"@
    } else {
        "false"@
    }
}

/// The report's opening: the build and the machine.
pub open spec fn build_section(environment: ReportEnvironment) -> Seq<char> {
    "Rustshot diagnostics\n"@ + "====================\n"@ + "Version: "@ + environment.version@
        + "\n"@ + "Target: "@ + environment.architecture@ + "-"@ + environment.operating_system@
        + "\n"@ + "Build profile: "@ + environment.profile@ + "\n"@
}

/// Where the settings path stands, or why it is unknown.
pub open spec fn config_path_text(config_path: Result<String, String>) -> Seq<char> {
    match config_path {
        Ok(path) => path@,
        Err(reason) => "unavailable ("@ + reason@ + ")"@,
    }
}

/// The schema and the paths that support asks about.
pub open spec fn location_section(
    config: Config,
    environment: ReportEnvironment,
    log_path: Seq<char>,
) -> Seq<char> {
    "Configuration schema: "@ + decimal_text(config.config_version as nat) + "\n"@
        + "Configuration path: "@ + config_path_text(environment.config_path) + "\n"@
        + "Diagnostic log: "@ + log_path + "\n"@ + "Autosave directory: "@
        + config.autosave_directory@ + "\n"@
}

/// The capture shortcuts, format and monitor scope.
pub open spec fn capture_section(config: Config) -> Seq<char> {
    "Full-screen shortcut: "@ + config.fullscreen_shortcut.text() + "\n"@ + "Region shortcut: "@
        + config.region_shortcut.text() + "\n"@ + "Image format: "@ + format_name(config.image_format)
        + "\n"@ + "Monitor scope: "@ + scope_name(config.monitor_scope) + "\n"@
}

/// The switches that change what a capture does.
pub open spec fn switch_section(config: Config) -> Seq<char> {
    "Include cursor: "@ + flag_text(config.include_cursor) + "\n"@ + "Region auto-copy: "@
        + flag_text(config.region_auto_copy) + "\n"@ + "Region autosave: "@ + flag_text(
        config.region_autosave,
    ) + "\n"@
}

/// The settings that matter for support.
pub open spec fn settings_section(config: Config) -> Seq<char> {
    capture_section(config) + switch_section(config)
}

/// The support report: build and machine, the settings that matter for
/// support (never screenshots or clipboard contents), and the recent log.
pub open spec fn report_spec(
    config: Config,
    environment: ReportEnvironment,
    log_path: Seq<char>,
    recent_log: Seq<char>,
) -> Seq<char> {
    build_section(environment) + location_section(config, environment, log_path) + settings_section(
        config,
    ) + "\n"@ + "Recent diagnostic log\n"@ + "---------------------\n"@ + recent_log
}

fn flag(value: bool) -> (text: &'static str)
    ensures
        text@ == flag_text(value),
{
    if value {
        "true"
    } else {
        "false"
    }
}

fn append_build_section(report: &mut String, environment: &ReportEnvironment)
    ensures
        final(report)@ == old(report)@ + build_section(*environment),
{
    let ghost start = report@;
    append_str(report, "Rustshot diagnostics\n");
    append_str(report, "====================\n");
    append_str(report, "Version: ");
    append_str(report, environment.version.as_str());
    append_str(report, "\n");
    append_str(report, "Target: ");
    append_str(report, environment.architecture.as_str());
    append_str(report, "-");
    append_str(report, environment.operating_system.as_str());
    append_str(report, "\n");
    append_str(report, "Build profile: ");
    append_str(report, environment.profile.as_str());
    append_str(report, "\n");
    proof {
        assert(report@ =~= start + build_section(*environment));
    }
}

fn append_location_section(
    report: &mut String,
    config: &Config,
    environment: &ReportEnvironment,
    log_path: &str,
)
    ensures
        final(report)@ == old(report)@ + location_section(*config, *environment, log_path@),
{
    let ghost start = report@;
    append_str(report, "Configuration schema: ");
    append_str(report, u64_to_decimal(config.config_version as u64).as_str());
    append_str(report, "\n");
    append_str(report, "Configuration path: ");
    let ghost before_path = report@;
    match &environment.config_path {
        Ok(path) => append_str(report, path.as_str()),
        Err(reason) => {
            append_str(report, "unavailable (");
            append_str(report, reason.as_str());
            append_str(report, ")");
        },
    }
    proof {
        assert(report@ =~= before_path + config_path_text(environment.config_path));
    }
    append_str(report, "\n");
    append_str(report, "Diagnostic log: ");
    append_str(report, log_path);
    append_str(report, "\n");
    append_str(report, "Autosave directory: ");
    append_str(report, config.autosave_directory.as_str());
    append_str(report, "\n");
    proof {
        assert(report@ =~= start + location_section(*config, *environment, log_path@));
    }
}

fn append_capture_section(report: &mut String, config: &Config)
    ensures
        final(report)@ == old(report)@ + capture_section(*config),
{
    let ghost start = report@;
    append_str(report, "Full-screen shortcut: ");
    append_str(report, config.fullscreen_shortcut.as_str());
    append_str(report, "\n");
    append_str(report, "Region shortcut: ");
    append_str(report, config.region_shortcut.as_str());
    append_str(report, "\n");
    append_str(report, "Image format: ");
    let format = match config.image_format {
        ScreenshotFormat::Png => "Png",
        ScreenshotFormat::Jpeg => "Jpeg",
    };
    append_str(report, format);
    append_str(report, "\n");
    append_str(report, "Monitor scope: ");
    let scope = match config.monitor_scope {
        MonitorScope::CursorMonitor => "CursorMonitor",
        MonitorScope::VirtualDesktop => "VirtualDesktop",
    };
    append_str(report, scope);
    append_str(report, "\n");
    proof {
        assert(report@ =~= start + capture_section(*config));
    }
}

fn append_switch_section(report: &mut String, config: &Config)
    ensures
        final(report)@ == old(report)@ + switch_section(*config),
{
    let ghost start = report@;
    append_str(report, "Include cursor: ");
    append_str(report, flag(config.include_cursor));
    append_str(report, "\n");
    append_str(report, "Region auto-copy: ");
    append_str(report, flag(config.region_auto_copy));
    append_str(report, "\n");
    append_str(report, "Region autosave: ");
    append_str(report, flag(config.region_autosave));
    append_str(report, "\n");
    proof {
        assert(report@ =~= start + switch_section(*config));
    }
}

/// Writes the support report.
pub fn report_text(
    config: &Config,
    environment: &ReportEnvironment,
    log_path: &str,
    recent_log: &str,
) -> (report: String)
    ensures
        report@ == report_spec(*config, *environment, log_path@, recent_log@),
{
    let mut report = String::new();
    append_build_section(&mut report, environment);
    append_location_section(&mut report, config, environment, log_path);
    append_capture_section(&mut report, config);
    append_switch_section(&mut report, config);
    append_str(&mut report, "\n");
    append_str(&mut report, "Recent diagnostic log\n");
    append_str(&mut report, "---------------------\n");
    append_str(&mut report, recent_log);
    proof {
        assert(report@ =~= report_spec(*config, *environment, log_path@, recent_log@));
    }
    report
}

} // verus!
