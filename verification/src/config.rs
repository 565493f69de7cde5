//! Persistent user configuration.
//!
//! The settings model, its validation, and the canonical form of the global
//! shortcuts. Reading and writing the TOML file happen outside the library;
//! [`Config::load`] and [`Config::save`] hold the decisions around that I/O.
use crate::text::{append_str, concatenated, decimal_text, trim, u64_to_decimal, u8_to_decimal};
use directories::{ProjectDirs, UserDirs};
use global_hotkey::hotkey::HotKey;
use vstd::prelude::*;

verus! {

/// Name of the settings file.
pub const CONFIG_FILE_NAME: &'static str = "config.toml";

/// Settings schema written and understood by this release.
pub const CURRENT_CONFIG_VERSION: u32 = 1;

/// Default shortcut for capturing the configured monitor scope immediately.
pub const DEFAULT_FULLSCREEN_SHORTCUT: &'static str = "control+shift+F11";

/// Default shortcut for opening the interactive region selector.
pub const DEFAULT_REGION_SHORTCUT: &'static str = "control+shift+F10";

/// JPEG quality used until the user picks another.
pub const DEFAULT_JPEG_QUALITY: u8 = 90;

/// Largest index into the editor's stroke-width table.
pub const MAX_EDITOR_STROKE_WIDTH: u8 = 3;

#[verifier::external_type_specification]
#[verifier::external_body]
pub struct ExUserDirs(UserDirs);

#[verifier::external_type_specification]
#[verifier::external_body]
pub struct ExHotKey(HotKey);

#[verifier::external_type_specification]
#[verifier::external_body]
pub struct ExProjectDirs(ProjectDirs);

/// The canonical text that `global_hotkey`'s `HotKey` parser produces for
/// `text` (the parsed hotkey turned back into a string by `into_string`), or
/// `None` where the parser rejects `text`.
pub uninterp spec fn hotkey_canonical_text(text: Seq<char>) -> Option<Seq<char>>;

/// Parses `text` with `<HotKey as FromStr>::from_str` and returns
/// `HotKey::into_string` of the result, or the parser's error message.
///
/// Claimed: the result is the named canonical text of the argument, a
/// canonical text parses back to itself, and it has no surrounding white
/// space. The last two claims follow from the crate's source: `into_string`
/// writes the modifiers as `shift+`, `control+`, `alt+`, `super+` and the key
/// by its `keyboard_types::Code` `Display` name (none holds white space), and
/// the parser reads each of those tokens back to the same modifier and key.
/// The error message is not described.
#[verifier::external_body]
fn parse_hotkey(text: &str) -> (result: Result<String, String>)
    ensures
        match result {
            Ok(canonical) => hotkey_canonical_text(text@) == Some(canonical@)
                && hotkey_canonical_text(canonical@) == Some(canonical@)
                && crate::text::trimmed(canonical@) == canonical@,
            Err(_) => hotkey_canonical_text(text@) is None,
        },
{
    match text.parse::<HotKey>() {
        Ok(hotkey) => Ok(hotkey.into_string()),
        Err(error) => Err(error.to_string()),
    }
}

/// Parses `text` with `<HotKey as FromStr>::from_str`, giving the parser's
/// error message on failure.
///
/// Claimed: the parse succeeds exactly where `text` has a canonical form,
/// since the canonical form is what the same parser's result turns back
/// into. Nothing is claimed of the hotkey, which stays opaque here.
#[verifier::external_body]
fn hotkey_from_text(text: &str) -> (result: Result<HotKey, String>)
    ensures
        result is Ok <==> hotkey_canonical_text(text@) is Some,
{
    text.parse::<HotKey>().map_err(|error| error.to_string())
}

/// `std::path::Path::is_file`: whether the path names an existing regular
/// file. The answer depends on the file system, so nothing is claimed.
#[verifier::external_body]
fn path_is_file(path: &str) -> bool {
    std::path::Path::new(path).is_file()
}

/// A path component that names a file or folder by itself: not empty, and
/// free of separators and of the `:` of a Windows drive prefix.
pub open spec fn is_plain_name(name: Seq<char>) -> bool {
    &&& name.len() > 0
    &&& forall|i: int| 0 <= i < name.len() ==> name[i] != '/' && name[i] != '\\' && name[i] != ':'
}

/// `path` ends with the text of `name`.
pub open spec fn ends_with_name(path: Seq<char>, name: Seq<char>) -> bool {
    &&& path.len() >= name.len()
    &&& path.subrange(path.len() - name.len(), path.len() as int) == name
}

/// `std::path::Path::join`, returned as text.
///
/// Claimed, as the documentation of `PathBuf::push` says: adjoining a
/// relative path extends the base with it, so joining a plain name gives a
/// path that ends with that name. `.` and `..` are left out: under a
/// Windows verbatim prefix the joined path is normalized and they vanish.
/// The platform decides the separator, which is not described.
#[verifier::external_body]
pub(crate) fn join_path(base: &str, child: &str) -> (joined: String)
    ensures
        is_plain_name(child@) && child@ != seq!['.'] && child@ != seq!['.', '.'] ==> ends_with_name(
            joined@,
            child@,
        ),
{
    std::path::Path::new(base).join(child).to_string_lossy().into_owned()
}

/// `directories::UserDirs::new`: the current user's standard folders, where
/// the environment reveals them. Nothing is claimed.
#[verifier::external_body]
fn user_dirs() -> Option<UserDirs> {
    UserDirs::new()
}

/// `directories::UserDirs::picture_dir`, as text. Nothing is claimed.
#[verifier::external_body]
fn picture_dir(dirs: &UserDirs) -> Option<String> {
    dirs.picture_dir().map(|path| path.to_string_lossy().into_owned())
}

/// `directories::ProjectDirs::from`: the per-user folders of an
/// application, where the environment reveals them. Nothing is claimed.
#[verifier::external_body]
fn project_dirs(qualifier: &str, organization: &str, application: &str) -> Option<ProjectDirs> {
    ProjectDirs::from(qualifier, organization, application)
}

/// `directories::ProjectDirs::config_dir`, as text. Nothing is claimed.
#[verifier::external_body]
fn config_dir(dirs: &ProjectDirs) -> String {
    dirs.config_dir().to_string_lossy().into_owned()
}

/// `directories::ProjectDirs::data_local_dir`, as text. Nothing is claimed.
#[verifier::external_body]
fn data_local_dir(dirs: &ProjectDirs) -> String {
    dirs.data_local_dir().to_string_lossy().into_owned()
}

/// Screenshot file format.
#[derive(Clone, Copy, Debug, Default, PartialEq, Eq, Structural)]
pub enum ScreenshotFormat {
    /// Lossless Portable Network Graphics.
    #[default]
    Png,
    /// Lossy Joint Photographic Experts Group format.
    Jpeg,
}

impl ScreenshotFormat {
    pub open spec fn extension_spec(self) -> Seq<char> {
        match self {
            ScreenshotFormat::Png => seq!['p', 'n', 'g'],
            ScreenshotFormat::Jpeg => seq!['j', 'p', 'g'],
        }
    }

    /// Conventional filename extension without a leading dot.
    pub fn extension(self) -> (extension: &'static str)
        ensures
            extension@ == self.extension_spec(),
    {
        match self {
            ScreenshotFormat::Png => {
                proof {
                    reveal_strlit("png");
                }
                "png"
            },
            ScreenshotFormat::Jpeg => {
                proof {
                    reveal_strlit("jpg");
                }
                "jpg"
            },
        }
    }
}

/// PNG encoder compression preference.
#[derive(Clone, Copy, Debug, Default, PartialEq, Eq, Structural)]
pub enum PngCompression {
    /// Prioritize encoding speed and use less CPU.
    Fast,
    /// Balance file size and encoding speed.
    #[default]
    Default,
    /// Prioritize a smaller file at the cost of encoding time.
    Best,
}

/// Display area included by a full-screen capture.
#[derive(Clone, Copy, Debug, Default, PartialEq, Eq, Structural)]
pub enum MonitorScope {
    /// Capture only the display containing the mouse pointer.
    #[default]
    CursorMonitor,
    /// Capture the bounding rectangle containing every active display.
    VirtualDesktop,
}

/// Editor tool persisted between region-capture sessions.
#[derive(Clone, Copy, Debug, Default, PartialEq, Eq, Structural)]
pub enum EditorTool {
    Select,
    #[default]
    Pen,
    Highlighter,
    Line,
    Arrow,
    Rectangle,
    Ellipse,
    Text,
    Callout,
    Redact,
    Pixelate,
    Eraser,
    Crop,
    Eyedropper,
}

/// Compact RGB color used for editor preferences.
#[derive(Clone, Copy, Debug, PartialEq, Eq, Structural)]
pub struct RgbColor {
    pub red: u8,
    pub green: u8,
    pub blue: u8,
}

impl RgbColor {
    pub fn new(red: u8, green: u8, blue: u8) -> (color: Self)
        ensures
            color == (RgbColor { red, green, blue }),
    {
        Self { red, green, blue }
    }
}

impl Default for RgbColor {
    fn default() -> (color: Self)
        ensures
            color == (RgbColor { red: 255, green: 64, blue: 64 }),
    {
        Self::new(255, 64, 64)
    }
}

/// Identifies one of the two independently configurable capture shortcuts.
#[derive(Clone, Copy, Debug, PartialEq, Eq, Structural)]
pub enum ShortcutBinding {
    /// Immediate capture of the configured monitor scope.
    Fullscreen,
    /// Interactive region selection.
    Region,
}

impl ShortcutBinding {
    pub open spec fn name_spec(self) -> Seq<char> {
        match self {
            ShortcutBinding::Fullscreen => "fullscreen"@,
            ShortcutBinding::Region => "region"@,
        }
    }

    /// The binding's name as it appears in messages.
    pub fn name(self) -> (name: &'static str)
        ensures
            name@ == self.name_spec(),
    {
        match self {
            ShortcutBinding::Fullscreen => "fullscreen",
            ShortcutBinding::Region => "region",
        }
    }
}

/// A global keyboard shortcut in its serialized form.
///
/// Shortcuts made by [`Shortcut::new`] are canonical: modifiers precede the
/// physical key, for example `shift+control+KeyS`. Configuration
/// validation re-checks whatever text a loaded settings file held.
#[derive(Clone, Debug, PartialEq, Eq, Hash)]
pub struct Shortcut(pub String);

/// `text` is a shortcut in the parser's canonical form: it parses back to
/// itself and has no surrounding white space.
pub open spec fn is_canonical_shortcut(text: Seq<char>) -> bool {
    &&& crate::text::trimmed(text) == text
    &&& hotkey_canonical_text(text) == Some(text)
}

impl Shortcut {
    pub open spec fn text(self) -> Seq<char> {
        self.0@
    }

    /// Parses and canonicalizes a shortcut.
    pub fn new(shortcut: &str) -> (result: Result<Self, ShortcutError>)
        ensures
            match result {
                Ok(parsed) => hotkey_canonical_text(crate::text::trimmed(shortcut@)) == Some(
                    parsed.text(),
                ) && is_canonical_shortcut(parsed.text()),
                Err(ShortcutError::Invalid { shortcut: input, .. }) => hotkey_canonical_text(
                    crate::text::trimmed(shortcut@),
                ) is None && input@ == crate::text::trimmed(shortcut@),
            },
    {
        let input = trim(shortcut);
        match parse_hotkey(input.as_str()) {
            Ok(canonical) => Ok(Shortcut(canonical)),
            Err(reason) => Err(ShortcutError::Invalid { shortcut: input, reason }),
        }
    }

    /// Converts the setting to the registration type used by `global-hotkey`.
    pub fn as_hotkey(&self) -> (result: Result<HotKey, ShortcutError>)
        ensures
            result is Ok <==> hotkey_canonical_text(self.text()) is Some,
            result matches Err(ShortcutError::Invalid { shortcut, .. }) ==> shortcut@ == self.text(),
    {
        match hotkey_from_text(self.0.as_str()) {
            Ok(hotkey) => Ok(hotkey),
            Err(reason) => Err(ShortcutError::Invalid { shortcut: self.0.clone(), reason }),
        }
    }

    /// Returns the serialized form.
    pub fn as_str(&self) -> (text: &str)
        ensures
            text@ == self.text(),
    {
        self.0.as_str()
    }
}

/// Error returned when parsing a global shortcut.
#[derive(Clone, Debug, PartialEq, Eq)]
pub enum ShortcutError {
    /// The shortcut cannot be represented by the global hotkey library.
    Invalid {
        /// User-provided shortcut.
        shortcut: String,
        /// Parser explanation.
        reason: String,
    },
}

/// Text of a shortcut that the parser rejected, with the parser's reason.
pub open spec fn shortcut_error_text(shortcut: Seq<char>, reason: Seq<char>) -> Seq<char> {
    "invalid shortcut `"@ + shortcut + "`: "@ + reason
}

impl ShortcutError {
    /// Human-readable description.
    pub fn message(&self) -> (message: String)
        ensures
            match self {
                ShortcutError::Invalid { shortcut, reason } => message@ == shortcut_error_text(
                    shortcut@,
                    reason@,
                ),
            },
    {
        match self {
            ShortcutError::Invalid { shortcut, reason } => {
                let mut message = concatenated("invalid shortcut `", shortcut.as_str());
                append_str(&mut message, "`: ");
                append_str(&mut message, reason.as_str());
                message
            },
        }
    }
}

/// A semantic error in an otherwise readable settings file.
#[derive(Clone, Debug, PartialEq, Eq)]
pub enum ConfigValidationError {
    /// The settings were written by an unsupported schema version.
    UnsupportedConfigVersion {
        /// Schema found in the settings file.
        found: u32,
        /// Schema understood by this release.
        supported: u32,
    },
    /// A capture shortcut could not be parsed.
    InvalidShortcut {
        /// Binding containing the invalid value.
        binding: ShortcutBinding,
        /// Invalid serialized shortcut.
        shortcut: String,
        /// Parser explanation.
        reason: String,
    },
    /// Both capture actions would be triggered by the same key combination.
    DuplicateShortcuts {
        /// Duplicated shortcut.
        shortcut: String,
    },
    /// JPEG quality falls outside the encoder's supported user range.
    InvalidJpegQuality(u8),
    /// No directory was configured for immediate captures.
    EmptyAutosaveDirectory,
    /// The configured autosave destination is an existing regular file.
    AutosaveDirectoryIsFile(String),
    /// The persisted editor width does not index the fixed width table.
    InvalidEditorStrokeWidth(u8),
}

/// Human-readable description of a validation error.
pub open spec fn validation_message(error: ConfigValidationError) -> Seq<char> {
    match error {
        ConfigValidationError::UnsupportedConfigVersion { found, supported } => "configuration schema "@
            + decimal_text(found as nat) + " is not supported; this release supports schema "@
            + decimal_text(supported as nat),
        ConfigValidationError::InvalidShortcut { binding, shortcut, reason } => "invalid "@
            + binding.name_spec() + " shortcut `"@ + shortcut@ + "`: "@ + reason@,
        ConfigValidationError::DuplicateShortcuts { shortcut } =>
            "fullscreen and region shortcuts must differ (both are `"@ + shortcut@ + "`)"@,
        ConfigValidationError::InvalidJpegQuality(quality) =>
            "JPEG quality must be between 1 and 100, got "@ + decimal_text(quality as nat),
        ConfigValidationError::EmptyAutosaveDirectory => "autosave directory must not be empty"@,
        ConfigValidationError::AutosaveDirectoryIsFile(path) =>
            "autosave directory points to an existing file: `"@ + path@ + "`"@,
        ConfigValidationError::InvalidEditorStrokeWidth(width) =>
            "editor stroke-width index must be between 0 and 3, got "@ + decimal_text(width as nat),
    }
}

impl ConfigValidationError {
    /// Human-readable description.
    pub fn message(&self) -> (message: String)
        ensures
            message@ == validation_message(*self),
    {
        match self {
            ConfigValidationError::UnsupportedConfigVersion { found, supported } => {
                let mut message = concatenated("configuration schema ", u64_to_decimal(*found as u64).as_str());
                append_str(&mut message, " is not supported; this release supports schema ");
                append_str(&mut message, u64_to_decimal(*supported as u64).as_str());
                message
            },
            ConfigValidationError::InvalidShortcut { binding, shortcut, reason } => {
                let mut message = concatenated("invalid ", binding.name());
                append_str(&mut message, " shortcut `");
                append_str(&mut message, shortcut.as_str());
                append_str(&mut message, "`: ");
                append_str(&mut message, reason.as_str());
                message
            },
            ConfigValidationError::DuplicateShortcuts { shortcut } => {
                let mut message = concatenated(
                    "fullscreen and region shortcuts must differ (both are `",
                    shortcut.as_str(),
                );
                append_str(&mut message, "`)");
                message
            },
            ConfigValidationError::InvalidJpegQuality(quality) => concatenated(
                "JPEG quality must be between 1 and 100, got ",
                u8_to_decimal(*quality).as_str(),
            ),
            ConfigValidationError::EmptyAutosaveDirectory => "autosave directory must not be empty".to_owned(),
            ConfigValidationError::AutosaveDirectoryIsFile(path) => {
                let mut message = concatenated("autosave directory points to an existing file: `", path.as_str());
                append_str(&mut message, "`");
                message
            },
            ConfigValidationError::InvalidEditorStrokeWidth(width) => concatenated(
                "editor stroke-width index must be between 0 and 3, got ",
                u8_to_decimal(*width).as_str(),
            ),
        }
    }
}

/// Failure while resolving, loading, validating, or saving settings.
#[derive(Clone, Debug, PartialEq, Eq)]
pub enum ConfigError {
    /// No per-user project directory is available on this system.
    ConfigurationDirectoryUnavailable,
    /// A filesystem operation failed.
    Io {
        /// Operation that failed.
        operation: String,
        /// Relevant filesystem path.
        path: String,
        /// Operating-system error text.
        message: String,
    },
    /// TOML could not be decoded into settings.
    Deserialize {
        /// Configuration file path.
        path: String,
        /// Decoder error text.
        message: String,
    },
    /// Settings could not be encoded as TOML.
    Serialize(String),
    /// Settings violate a semantic invariant.
    Validation(ConfigValidationError),
}

/// Human-readable description of a configuration failure.
pub open spec fn config_error_message(error: ConfigError) -> Seq<char> {
    match error {
        ConfigError::ConfigurationDirectoryUnavailable =>
            "could not determine the per-user Rustshot configuration directory"@,
        ConfigError::Io { operation, path, message } => "failed to "@ + operation@ + " at `"@
            + path@ + "`: "@ + message@,
        ConfigError::Deserialize { path, message } => "failed to parse configuration at `"@ + path@
            + "`: "@ + message@,
        ConfigError::Serialize(message) => "failed to serialize configuration: "@ + message@,
        ConfigError::Validation(error) => validation_message(error),
    }
}

impl ConfigError {
    /// Human-readable description.
    pub fn message(&self) -> (message: String)
        ensures
            message@ == config_error_message(*self),
    {
        match self {
            ConfigError::ConfigurationDirectoryUnavailable =>
                "could not determine the per-user Rustshot configuration directory".to_owned(),
            ConfigError::Io { operation, path, message } => {
                let mut text = concatenated("failed to ", operation.as_str());
                append_str(&mut text, " at `");
                append_str(&mut text, path.as_str());
                append_str(&mut text, "`: ");
                append_str(&mut text, message.as_str());
                text
            },
            ConfigError::Deserialize { path, message } => {
                let mut text = concatenated("failed to parse configuration at `", path.as_str());
                append_str(&mut text, "`: ");
                append_str(&mut text, message.as_str());
                text
            },
            ConfigError::Serialize(message) => concatenated(
                "failed to serialize configuration: ",
                message.as_str(),
            ),
            ConfigError::Validation(error) => error.message(),
        }
    }
}

/// All persistent settings.
#[derive(Clone, Debug, PartialEq, Eq)]
pub struct Config {
    /// Version of the persisted settings schema.
    pub config_version: u32,
    /// Captures the monitor scope and saves it immediately.
    pub fullscreen_shortcut: Shortcut,
    /// Opens the interactive area-selection overlay.
    pub region_shortcut: Shortcut,
    /// Directory used by the immediate full-screen capture workflow.
    pub autosave_directory: String,
    /// File format used when encoding screenshots.
    pub image_format: ScreenshotFormat,
    /// JPEG encoder quality in the inclusive range `1..=100`.
    pub jpeg_quality: u8,
    /// PNG encoder compression preference.
    pub png_compression: PngCompression,
    /// Which display area a full-screen capture includes.
    pub monitor_scope: MonitorScope,
    /// Whether the mouse cursor is composited into captures.
    pub include_cursor: bool,
    /// Copy a selected region immediately instead of opening the editor.
    pub region_auto_copy: bool,
    /// Save a selected region immediately instead of opening the editor.
    pub region_autosave: bool,
    /// Tool restored when the next region editor opens.
    pub last_editor_tool: EditorTool,
    /// Opaque annotation color restored by the region editor.
    pub editor_color: RgbColor,
    /// Index into the editor's compact stroke-width table.
    pub editor_stroke_width: u8,
}

/// Every check of [`Config::validate`] passes, given whether the autosave
/// directory names an existing regular file.
pub open spec fn config_valid(config: Config, autosave_is_file: bool) -> bool {
    &&& config.config_version == CURRENT_CONFIG_VERSION
    &&& hotkey_canonical_text(config.fullscreen_shortcut.text()) is Some
    &&& hotkey_canonical_text(config.region_shortcut.text()) is Some
    &&& hotkey_canonical_text(config.fullscreen_shortcut.text()) != hotkey_canonical_text(
        config.region_shortcut.text(),
    )
    &&& 1 <= config.jpeg_quality <= 100
    &&& config.autosave_directory@.len() > 0
    &&& !autosave_is_file
    &&& config.editor_stroke_width <= MAX_EDITOR_STROKE_WIDTH
}

/// `error` is the error of the first failing check, in the order that
/// [`Config::validate`] runs them.
pub open spec fn first_violation(config: Config, autosave_is_file: bool, error: ConfigValidationError) -> bool {
    if config.config_version != CURRENT_CONFIG_VERSION {
        error == ConfigValidationError::UnsupportedConfigVersion {
            found: config.config_version,
            supported: CURRENT_CONFIG_VERSION,
        }
    } else if hotkey_canonical_text(config.fullscreen_shortcut.text()) is None {
        error matches ConfigValidationError::InvalidShortcut { binding, shortcut, .. }
            && binding == ShortcutBinding::Fullscreen && shortcut@
            == config.fullscreen_shortcut.text()
    } else if hotkey_canonical_text(config.region_shortcut.text()) is None {
        error matches ConfigValidationError::InvalidShortcut { binding, shortcut, .. }
            && binding == ShortcutBinding::Region && shortcut@ == config.region_shortcut.text()
    } else if hotkey_canonical_text(config.fullscreen_shortcut.text()) == hotkey_canonical_text(
        config.region_shortcut.text(),
    ) {
        error matches ConfigValidationError::DuplicateShortcuts { shortcut } && shortcut@
            == config.fullscreen_shortcut.text()
    } else if !(1 <= config.jpeg_quality <= 100) {
        error == ConfigValidationError::InvalidJpegQuality(config.jpeg_quality)
    } else if config.autosave_directory@.len() == 0 {
        error == ConfigValidationError::EmptyAutosaveDirectory
    } else if autosave_is_file {
        error matches ConfigValidationError::AutosaveDirectoryIsFile(path) && path@
            == config.autosave_directory@
    } else {
        error == ConfigValidationError::InvalidEditorStrokeWidth(config.editor_stroke_width)
    }
}

/// The outcome of validation, given the file-system answer.
pub open spec fn validation_outcome(
    config: Config,
    autosave_is_file: bool,
    result: Result<(), ConfigValidationError>,
) -> bool {
    match result {
        Ok(()) => config_valid(config, autosave_is_file),
        Err(error) => !config_valid(config, autosave_is_file) && first_violation(
            config,
            autosave_is_file,
            error,
        ),
    }
}

/// The outcome of validation once both shortcuts have been through the
/// parser: `fullscreen` and `region` are its answers, the canonical text or
/// the reason for refusing the shortcut.
pub open spec fn parsed_outcome(
    config: Config,
    fullscreen: Result<String, String>,
    region: Result<String, String>,
    autosave_is_file: bool,
    result: Result<(), ConfigValidationError>,
) -> bool {
    if config.config_version != CURRENT_CONFIG_VERSION {
        result == Err::<(), ConfigValidationError>(
            ConfigValidationError::UnsupportedConfigVersion {
                found: config.config_version,
                supported: CURRENT_CONFIG_VERSION,
            },
        )
    } else {
        match fullscreen {
            Err(reason) => result matches Err(
                ConfigValidationError::InvalidShortcut { binding, shortcut, reason: given },
            ) && binding == ShortcutBinding::Fullscreen && shortcut@ == config.fullscreen_shortcut.text()
                && given@ == reason@,
            Ok(first) => match region {
                Err(reason) => result matches Err(
                    ConfigValidationError::InvalidShortcut { binding, shortcut, reason: given },
                ) && binding == ShortcutBinding::Region && shortcut@ == config.region_shortcut.text()
                    && given@ == reason@,
                Ok(second) => if first@ == second@ {
                    result matches Err(ConfigValidationError::DuplicateShortcuts { shortcut })
                        && shortcut@ == config.fullscreen_shortcut.text()
                } else if !(1 <= config.jpeg_quality <= 100) {
                    result == Err::<(), ConfigValidationError>(
                        ConfigValidationError::InvalidJpegQuality(config.jpeg_quality),
                    )
                } else if config.autosave_directory@.len() == 0 {
                    result == Err::<(), ConfigValidationError>(
                        ConfigValidationError::EmptyAutosaveDirectory,
                    )
                } else if autosave_is_file {
                    result matches Err(ConfigValidationError::AutosaveDirectoryIsFile(path))
                        && path@ == config.autosave_directory@
                } else if config.editor_stroke_width > MAX_EDITOR_STROKE_WIDTH {
                    result == Err::<(), ConfigValidationError>(
                        ConfigValidationError::InvalidEditorStrokeWidth(config.editor_stroke_width),
                    )
                } else {
                    result is Ok
                },
            },
        }
    }
}

impl Config {
    /// Checks all invariants that must hold before settings can be used.
    ///
    /// Whether the autosave directory is an existing file is asked of the file
    /// system; the result is that of [`Config::validate_with`] for its answer.
    pub fn validate(&self) -> (result: Result<(), ConfigValidationError>)
        ensures
            validation_outcome(*self, false, result) || validation_outcome(*self, true, result),
    {
        let autosave_is_file = if self.autosave_directory.as_str().is_empty() {
            false
        } else {
            path_is_file(self.autosave_directory.as_str())
        };
        self.validate_with(autosave_is_file)
    }

    /// Validation given whether the autosave directory is an existing file.
    pub fn validate_with(&self, autosave_is_file: bool) -> (result: Result<(), ConfigValidationError>)
        ensures
            validation_outcome(*self, autosave_is_file, result),
    {
        if self.config_version != CURRENT_CONFIG_VERSION {
            return Err(
                ConfigValidationError::UnsupportedConfigVersion {
                    found: self.config_version,
                    supported: CURRENT_CONFIG_VERSION,
                },
            );
        }
        let fullscreen = parse_hotkey(self.fullscreen_shortcut.as_str());
        let region = parse_hotkey(self.region_shortcut.as_str());
        self.validate_parsed(fullscreen, region, autosave_is_file)
    }

    /// Validation once both shortcuts have been through the parser, given its
    /// answers and whether the autosave directory is an existing file.
    pub fn validate_parsed(
        &self,
        fullscreen: Result<String, String>,
        region: Result<String, String>,
        autosave_is_file: bool,
    ) -> (result: Result<(), ConfigValidationError>)
        ensures
            parsed_outcome(*self, fullscreen, region, autosave_is_file, result),
    {
        if self.config_version != CURRENT_CONFIG_VERSION {
            return Err(
                ConfigValidationError::UnsupportedConfigVersion {
                    found: self.config_version,
                    supported: CURRENT_CONFIG_VERSION,
                },
            );
        }
        let fullscreen = match fullscreen {
            Ok(canonical) => canonical,
            Err(reason) => {
                return Err(
                    ConfigValidationError::InvalidShortcut {
                        binding: ShortcutBinding::Fullscreen,
                        shortcut: self.fullscreen_shortcut.0.clone(),
                        reason,
                    },
                );
            },
        };
        let region = match region {
            Ok(canonical) => canonical,
            Err(reason) => {
                return Err(
                    ConfigValidationError::InvalidShortcut {
                        binding: ShortcutBinding::Region,
                        shortcut: self.region_shortcut.0.clone(),
                        reason,
                    },
                );
            },
        };
        if fullscreen == region {
            return Err(
                ConfigValidationError::DuplicateShortcuts {
                    shortcut: self.fullscreen_shortcut.0.clone(),
                },
            );
        }
        if !(1 <= self.jpeg_quality && self.jpeg_quality <= 100) {
            return Err(ConfigValidationError::InvalidJpegQuality(self.jpeg_quality));
        }
        if self.autosave_directory.as_str().is_empty() {
            return Err(ConfigValidationError::EmptyAutosaveDirectory);
        }
        if autosave_is_file {
            return Err(
                ConfigValidationError::AutosaveDirectoryIsFile(self.autosave_directory.clone()),
            );
        }
        if self.editor_stroke_width > MAX_EDITOR_STROKE_WIDTH {
            return Err(ConfigValidationError::InvalidEditorStrokeWidth(self.editor_stroke_width));
        }
        Ok(())
    }

    /// The settings in effect after reading the settings file.
    ///
    /// `stored` is `None` when no settings file exists, in which case the
    /// defaults apply; otherwise the decoded settings are accepted only if
    /// they validate.
    pub fn load(stored: Option<Config>) -> (result: Result<Config, ConfigError>)
        ensures
            match stored {
                None => result matches Ok(config) && is_default_config(config),
                Some(config) => match result {
                    Ok(loaded) => loaded == config && (config_valid(config, false) || config_valid(
                        config,
                        true,
                    )),
                    Err(ConfigError::Validation(error)) => validation_outcome(config, false, Err(error))
                        || validation_outcome(config, true, Err(error)),
                    Err(_) => false,
                },
            },
    {
        match stored {
            None => Ok(Config::default()),
            Some(config) => match config.validate() {
                Ok(()) => Ok(config),
                Err(error) => Err(ConfigError::Validation(error)),
            },
        }
    }

    /// Checks that the settings may be persisted: saving writes only settings
    /// that validate.
    pub fn save(&self) -> (result: Result<(), ConfigError>)
        ensures
            match result {
                Ok(()) => config_valid(*self, false) || config_valid(*self, true),
                Err(ConfigError::Validation(error)) => validation_outcome(*self, false, Err(error))
                    || validation_outcome(*self, true, Err(error)),
                Err(_) => false,
            },
    {
        match self.validate() {
            Ok(()) => Ok(()),
            Err(error) => Err(ConfigError::Validation(error)),
        }
    }
}

/// The default settings, apart from the autosave directory, which depends on
/// the user's environment.
pub open spec fn is_default_config(config: Config) -> bool {
    &&& config.config_version == CURRENT_CONFIG_VERSION
    &&& default_shortcut_spec(DEFAULT_FULLSCREEN_SHORTCUT@, config.fullscreen_shortcut)
    &&& default_shortcut_spec(DEFAULT_REGION_SHORTCUT@, config.region_shortcut)
    &&& config.image_format == ScreenshotFormat::Png
    &&& config.jpeg_quality == DEFAULT_JPEG_QUALITY
    &&& config.png_compression == PngCompression::Default
    &&& config.monitor_scope == MonitorScope::CursorMonitor
    &&& config.include_cursor
    &&& !config.region_auto_copy
    &&& !config.region_autosave
    &&& config.last_editor_tool == EditorTool::Pen
    &&& config.editor_color == (RgbColor { red: 255, green: 64, blue: 64 })
    &&& config.editor_stroke_width == 1
}

/// The built-in shortcut `text` in canonical form (the text itself, should
/// the parser ever reject it).
pub open spec fn default_shortcut_spec(text: Seq<char>, shortcut: Shortcut) -> bool {
    match hotkey_canonical_text(crate::text::trimmed(text)) {
        Some(canonical) => shortcut.text() == canonical,
        None => shortcut.text() == text,
    }
}

impl Default for Config {
    fn default() -> (config: Self)
        ensures
            is_default_config(config),
    {
        Config {
            config_version: CURRENT_CONFIG_VERSION,
            fullscreen_shortcut: default_shortcut(DEFAULT_FULLSCREEN_SHORTCUT),
            region_shortcut: default_shortcut(DEFAULT_REGION_SHORTCUT),
            autosave_directory: default_autosave_directory(),
            image_format: ScreenshotFormat::Png,
            jpeg_quality: DEFAULT_JPEG_QUALITY,
            png_compression: PngCompression::Default,
            monitor_scope: MonitorScope::CursorMonitor,
            include_cursor: true,
            region_auto_copy: false,
            region_autosave: false,
            last_editor_tool: EditorTool::Pen,
            editor_color: RgbColor::default(),
            editor_stroke_width: 1,
        }
    }
}

/// The canonical form of a built-in shortcut.
pub fn default_shortcut(shortcut: &str) -> (result: Shortcut)
    ensures
        default_shortcut_spec(shortcut@, result),
{
    match Shortcut::new(shortcut) {
        Ok(parsed) => parsed,
        Err(_) => Shortcut(shortcut.to_owned()),
    }
}

/// Where autosaved captures go by default: a `Rustshot` folder in the
/// user's pictures folder, else a `captures` folder in the application's
/// local data folder, else a relative `Rustshot` folder.
pub fn default_autosave_directory() -> (directory: String)
    ensures
        ends_with_name(directory@, "Rustshot"@) || ends_with_name(directory@, "captures"@),
{
    proof {
        reveal_strlit("Rustshot");
        reveal_strlit("captures");
    }
    match user_dirs() {
        Some(dirs) => match picture_dir(&dirs) {
            Some(pictures) => {
                return join_path(pictures.as_str(), "Rustshot");
            },
            None => {},
        },
        None => {},
    }
    match project_dirs("io.github", "CodyKoInABox", "Rustshot") {
        Some(dirs) => {
            let local = data_local_dir(&dirs);
            join_path(local.as_str(), "captures")
        },
        None => {
            let relative = "Rustshot".to_owned();
            proof {
                assert(relative@.subrange(0, relative@.len() as int) =~= relative@);
            }
            relative
        },
    }
}

/// Returns the per-user settings path.
pub fn config_path() -> (result: Result<String, ConfigError>)
    ensures
        result matches Err(error) ==> error == ConfigError::ConfigurationDirectoryUnavailable,
        result matches Ok(path) ==> ends_with_name(path@, CONFIG_FILE_NAME@),
{
    proof {
        reveal_strlit("config.toml");
    }
    match project_dirs("io.github", "CodyKoInABox", "Rustshot") {
        Some(dirs) => {
            let directory = config_dir(&dirs);
            Ok(join_path(directory.as_str(), CONFIG_FILE_NAME))
        },
        None => Err(ConfigError::ConfigurationDirectoryUnavailable),
    }
}

/// The directory of `path`, or `.` where it has none (`non_empty_parent`).
pub fn non_empty_parent(path: &str) -> (parent: String)
    ensures
        parent@.len() > 0,
{
    let parent = path_parent(path);
    match parent {
        Some(parent) => {
            if !parent.as_str().is_empty() {
                parent
            } else {
                dot()
            }
        },
        None => dot(),
    }
}

fn dot() -> (text: String)
    ensures
        text@ == seq!['.'],
{
    let text = ".".to_owned();
    proof {
        reveal_strlit(".");
    }
    text
}

/// `std::path::Path::parent`, as text. The platform decides what separates
/// path components, so nothing is claimed.
#[verifier::external_body]
fn path_parent(path: &str) -> Option<String> {
    std::path::Path::new(path).parent().map(|parent| parent.to_string_lossy().into_owned())
}

} // verus!
