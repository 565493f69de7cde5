//! The settings dialog's logic: recording shortcuts from key presses, and
//! turning the dialog's control values into a validated configuration.
//!
//! The dialog itself (windows, controls, focus) lives with the application;
//! it hands this module plain values and shows what comes back.
use crate::config::{
    hotkey_canonical_text, validation_message, Config, ConfigValidationError, MonitorScope,
    PngCompression, ScreenshotFormat, Shortcut, CURRENT_CONFIG_VERSION, MAX_EDITOR_STROKE_WIDTH,
};
use crate::text::{
    append_str, concatenated, decimal_text, parse_u8, parse_u8_spec, push_char, trim, trimmed,
    u64_to_decimal, u8_to_decimal,
};
use vstd::prelude::*;

verus! {

/// Dialog control holding the full-screen shortcut.
pub const IDC_FULLSCREEN_SHORTCUT: i32 = 1001;
/// Dialog control holding the region shortcut.
pub const IDC_REGION_SHORTCUT: i32 = 1002;
/// Dialog control holding the autosave directory.
pub const IDC_AUTOSAVE_DIRECTORY: i32 = 1003;
/// Dialog control selecting the image format.
pub const IDC_IMAGE_FORMAT: i32 = 1005;
/// Dialog control holding the JPEG quality.
pub const IDC_JPEG_QUALITY: i32 = 1006;
/// Dialog control selecting the PNG compression.
pub const IDC_PNG_COMPRESSION: i32 = 1007;
/// Dialog control selecting the full-screen capture scope.
pub const IDC_MONITOR_SCOPE: i32 = 1008;

pub const VK_BACK: u32 = 0x08;
pub const VK_TAB: u32 = 0x09;
pub const VK_RETURN: u32 = 0x0d;
pub const VK_SHIFT: u32 = 0x10;
pub const VK_CONTROL: u32 = 0x11;
pub const VK_MENU: u32 = 0x12;
pub const VK_PAUSE: u32 = 0x13;
pub const VK_CAPITAL: u32 = 0x14;
pub const VK_ESCAPE: u32 = 0x1b;
pub const VK_SPACE: u32 = 0x20;
pub const VK_PRIOR: u32 = 0x21;
pub const VK_NEXT: u32 = 0x22;
pub const VK_END: u32 = 0x23;
pub const VK_HOME: u32 = 0x24;
pub const VK_LEFT: u32 = 0x25;
pub const VK_UP: u32 = 0x26;
pub const VK_RIGHT: u32 = 0x27;
pub const VK_DOWN: u32 = 0x28;
pub const VK_SNAPSHOT: u32 = 0x2c;
pub const VK_INSERT: u32 = 0x2d;
pub const VK_DELETE: u32 = 0x2e;
pub const VK_LWIN: u32 = 0x5b;
pub const VK_RWIN: u32 = 0x5c;
pub const VK_NUMPAD0: u32 = 0x60;
pub const VK_NUMPAD9: u32 = 0x69;
pub const VK_MULTIPLY: u32 = 0x6a;
pub const VK_ADD: u32 = 0x6b;
pub const VK_SUBTRACT: u32 = 0x6d;
pub const VK_DECIMAL: u32 = 0x6e;
pub const VK_DIVIDE: u32 = 0x6f;
pub const VK_F1: u32 = 0x70;
pub const VK_F4: u32 = 0x73;
pub const VK_F24: u32 = 0x87;
pub const VK_NUMLOCK: u32 = 0x90;
pub const VK_SCROLL: u32 = 0x91;
pub const VK_LSHIFT: u32 = 0xa0;
pub const VK_RSHIFT: u32 = 0xa1;
pub const VK_LCONTROL: u32 = 0xa2;
pub const VK_RCONTROL: u32 = 0xa3;
pub const VK_LMENU: u32 = 0xa4;
pub const VK_RMENU: u32 = 0xa5;
pub const VK_VOLUME_MUTE: u32 = 0xad;
pub const VK_VOLUME_DOWN: u32 = 0xae;
pub const VK_VOLUME_UP: u32 = 0xaf;
pub const VK_MEDIA_NEXT_TRACK: u32 = 0xb0;
pub const VK_MEDIA_PREV_TRACK: u32 = 0xb1;
pub const VK_MEDIA_STOP: u32 = 0xb2;
pub const VK_MEDIA_PLAY_PAUSE: u32 = 0xb3;
pub const VK_OEM_1: u32 = 0xba;
pub const VK_OEM_PLUS: u32 = 0xbb;
pub const VK_OEM_COMMA: u32 = 0xbc;
pub const VK_OEM_MINUS: u32 = 0xbd;
pub const VK_OEM_PERIOD: u32 = 0xbe;
pub const VK_OEM_2: u32 = 0xbf;
pub const VK_OEM_3: u32 = 0xc0;
pub const VK_OEM_4: u32 = 0xdb;
pub const VK_OEM_5: u32 = 0xdc;
pub const VK_OEM_6: u32 = 0xdd;
pub const VK_OEM_7: u32 = 0xde;
pub const VK_PLAY: u32 = 0xfa;

/// Modifier keys held while a shortcut key is pressed.
#[derive(Clone, Copy, Debug, PartialEq, Eq, Structural)]
pub struct ShortcutModifiers {
    pub shift: bool,
    pub control: bool,
    pub alt: bool,
    pub super_key: bool,
}

impl Default for ShortcutModifiers {
    fn default() -> (modifiers: Self)
        ensures
            modifiers == (ShortcutModifiers {
                shift: false,
                control: false,
                alt: false,
                super_key: false,
            }),
    {
        ShortcutModifiers { shift: false, control: false, alt: false, super_key: false }
    }
}

pub open spec fn is_shift_key(virtual_key: u32) -> bool {
    virtual_key == VK_SHIFT || virtual_key == VK_LSHIFT || virtual_key == VK_RSHIFT
}

pub open spec fn is_control_key(virtual_key: u32) -> bool {
    virtual_key == VK_CONTROL || virtual_key == VK_LCONTROL || virtual_key == VK_RCONTROL
}

pub open spec fn is_alt_key(virtual_key: u32) -> bool {
    virtual_key == VK_MENU || virtual_key == VK_LMENU || virtual_key == VK_RMENU
}

pub open spec fn is_super_key(virtual_key: u32) -> bool {
    virtual_key == VK_LWIN || virtual_key == VK_RWIN
}

/// One of the modifier keys, left, right or either.
pub open spec fn is_modifier(virtual_key: u32) -> bool {
    is_shift_key(virtual_key) || is_control_key(virtual_key) || is_alt_key(virtual_key)
        || is_super_key(virtual_key)
}

/// The held modifiers after `virtual_key` goes down (`pressed`) or up.
pub open spec fn after_key(
    modifiers: ShortcutModifiers,
    virtual_key: u32,
    pressed: bool,
) -> ShortcutModifiers {
    if is_shift_key(virtual_key) {
        ShortcutModifiers { shift: pressed, ..modifiers }
    } else if is_control_key(virtual_key) {
        ShortcutModifiers { control: pressed, ..modifiers }
    } else if is_alt_key(virtual_key) {
        ShortcutModifiers { alt: pressed, ..modifiers }
    } else if is_super_key(virtual_key) {
        ShortcutModifiers { super_key: pressed, ..modifiers }
    } else {
        modifiers
    }
}

impl ShortcutModifiers {
    /// Modifiers held in either set.
    pub fn union(self, other: Self) -> (both: Self)
        ensures
            both == (ShortcutModifiers {
                shift: self.shift || other.shift,
                control: self.control || other.control,
                alt: self.alt || other.alt,
                super_key: self.super_key || other.super_key,
            }),
    {
        ShortcutModifiers {
            shift: self.shift || other.shift,
            control: self.control || other.control,
            alt: self.alt || other.alt,
            super_key: self.super_key || other.super_key,
        }
    }

    /// Records that `virtual_key` went down or up; returns whether it is a
    /// modifier key, and leaves the set unchanged where it is not.
    pub fn set_key(&mut self, virtual_key: u32, pressed: bool) -> (modifier: bool)
        ensures
            modifier == is_modifier(virtual_key),
            *final(self) == after_key(*old(self), virtual_key, pressed),
    {
        if virtual_key == VK_SHIFT || virtual_key == VK_LSHIFT || virtual_key == VK_RSHIFT {
            self.shift = pressed;
        } else if virtual_key == VK_CONTROL || virtual_key == VK_LCONTROL || virtual_key
            == VK_RCONTROL {
            self.control = pressed;
        } else if virtual_key == VK_MENU || virtual_key == VK_LMENU || virtual_key == VK_RMENU {
            self.alt = pressed;
        } else if virtual_key == VK_LWIN || virtual_key == VK_RWIN {
            self.super_key = pressed;
        } else {
            return false;
        }
        true
    }
}

/// Whether the shortcut field keeps a key that the dialog would otherwise use
/// for navigation: any chord with a modifier, except Shift+Tab (which moves
/// focus back) and Alt+F4 (which closes the dialog).
pub open spec fn wants_all_keys(virtual_key: u32, modifiers: ShortcutModifiers) -> bool {
    if virtual_key == VK_F4 && modifiers.alt {
        false
    } else {
        modifiers.control || modifiers.alt || modifiers.super_key || (modifiers.shift
            && virtual_key != VK_TAB)
    }
}

pub fn wants_all_dialog_keys(virtual_key: u32, modifiers: ShortcutModifiers) -> (wants: bool)
    ensures
        wants == wants_all_keys(virtual_key, modifiers),
{
    if virtual_key == VK_F4 && modifiers.alt {
        return false;
    }
    modifiers.control || modifiers.alt || modifiers.super_key || (modifiers.shift && virtual_key
        != VK_TAB)
}

pub fn is_modifier_key(virtual_key: u32) -> (modifier: bool)
    ensures
        modifier == is_modifier(virtual_key),
{
    virtual_key == VK_SHIFT || virtual_key == VK_CONTROL || virtual_key == VK_MENU || virtual_key
        == VK_LWIN || virtual_key == VK_RWIN || virtual_key == VK_LSHIFT || virtual_key
        == VK_RSHIFT || virtual_key == VK_LCONTROL || virtual_key == VK_RCONTROL || virtual_key
        == VK_LMENU || virtual_key == VK_RMENU
}

/// The `keyboard_types::Code` name of a key that has no run of numbered
/// siblings, where the recorder supports it.
pub open spec fn named_key(virtual_key: u32, extended: bool) -> Option<&'static str> {
    if virtual_key == VK_OEM_PLUS {
        Some("Equal")
    } else if virtual_key == VK_OEM_COMMA {
        Some("Comma")
    } else if virtual_key == VK_OEM_MINUS {
        Some("Minus")
    } else if virtual_key == VK_OEM_PERIOD {
        Some("Period")
    } else if virtual_key == VK_OEM_1 {
        Some("Semicolon")
    } else if virtual_key == VK_OEM_2 {
        Some("Slash")
    } else if virtual_key == VK_OEM_3 {
        Some("Backquote")
    } else if virtual_key == VK_OEM_4 {
        Some("BracketLeft")
    } else if virtual_key == VK_OEM_5 {
        Some("Backslash")
    } else if virtual_key == VK_OEM_6 {
        Some("BracketRight")
    } else if virtual_key == VK_OEM_7 {
        Some("Quote")
    } else if virtual_key == VK_BACK {
        Some("Backspace")
    } else if virtual_key == VK_TAB {
        Some("Tab")
    } else if virtual_key == VK_SPACE {
        Some("Space")
    } else if virtual_key == VK_RETURN {
        if extended {
            Some("NumpadEnter")
        } else {
            Some("Enter")
        }
    } else if virtual_key == VK_CAPITAL {
        Some("CapsLock")
    } else if virtual_key == VK_ESCAPE {
        Some("Escape")
    } else if virtual_key == VK_PRIOR {
        Some("PageUp")
    } else if virtual_key == VK_NEXT {
        Some("PageDown")
    } else if virtual_key == VK_END {
        Some("End")
    } else if virtual_key == VK_HOME {
        Some("Home")
    } else if virtual_key == VK_LEFT {
        Some("ArrowLeft")
    } else if virtual_key == VK_UP {
        Some("ArrowUp")
    } else if virtual_key == VK_RIGHT {
        Some("ArrowRight")
    } else if virtual_key == VK_DOWN {
        Some("ArrowDown")
    } else if virtual_key == VK_SNAPSHOT {
        Some("PrintScreen")
    } else if virtual_key == VK_INSERT {
        Some("Insert")
    } else if virtual_key == VK_DELETE {
        Some("Delete")
    } else if virtual_key == VK_NUMLOCK {
        Some("NumLock")
    } else if virtual_key == VK_MULTIPLY {
        Some("NumpadMultiply")
    } else if virtual_key == VK_ADD {
        Some("NumpadAdd")
    } else if virtual_key == VK_SUBTRACT {
        Some("NumpadSubtract")
    } else if virtual_key == VK_DECIMAL {
        Some("NumpadDecimal")
    } else if virtual_key == VK_DIVIDE {
        Some("NumpadDivide")
    } else if virtual_key == VK_SCROLL {
        Some("ScrollLock")
    } else if virtual_key == VK_VOLUME_DOWN {
        Some("AudioVolumeDown")
    } else if virtual_key == VK_VOLUME_UP {
        Some("AudioVolumeUp")
    } else if virtual_key == VK_VOLUME_MUTE {
        Some("AudioVolumeMute")
    } else if virtual_key == VK_PLAY {
        Some("MediaPlay")
    } else if virtual_key == VK_MEDIA_PLAY_PAUSE {
        Some("MediaPlayPause")
    } else if virtual_key == VK_MEDIA_STOP {
        Some("MediaStop")
    } else if virtual_key == VK_MEDIA_NEXT_TRACK {
        Some("MediaTrackNext")
    } else if virtual_key == VK_MEDIA_PREV_TRACK {
        Some("MediaTrackPrevious")
    } else if virtual_key == VK_PAUSE {
        Some("Pause")
    } else {
        None
    }
}

/// The key name that a virtual key records as, where it can be recorded:
/// letters as `KeyA`..`KeyZ`, digits as `Digit0`..`Digit9`, function keys as
/// `F1`..`F24`, keypad digits as `Numpad0`..`Numpad9`, the rest by name.
pub open spec fn key_name(virtual_key: u32, extended: bool) -> Option<Seq<char>> {
    if 0x41 <= virtual_key <= 0x5a {
        Some("Key"@.push(virtual_key as char))
    } else if 0x30 <= virtual_key <= 0x39 {
        Some("Digit"@.push(virtual_key as char))
    } else if VK_F1 <= virtual_key <= VK_F24 {
        Some("F"@ + decimal_text((virtual_key - VK_F1 + 1) as nat))
    } else if VK_NUMPAD0 <= virtual_key <= VK_NUMPAD9 {
        Some("Numpad"@ + decimal_text((virtual_key - VK_NUMPAD0) as nat))
    } else {
        match named_key(virtual_key, extended) {
            Some(name) => Some(name@),
            None => None,
        }
    }
}

fn named_key_text(virtual_key: u32, extended: bool) -> (name: Option<&'static str>)
    ensures
        name == named_key(virtual_key, extended),
{
    if virtual_key == VK_OEM_PLUS {
        Some("Equal")
    } else if virtual_key == VK_OEM_COMMA {
        Some("Comma")
    } else if virtual_key == VK_OEM_MINUS {
        Some("Minus")
    } else if virtual_key == VK_OEM_PERIOD {
        Some("Period")
    } else if virtual_key == VK_OEM_1 {
        Some("Semicolon")
    } else if virtual_key == VK_OEM_2 {
        Some("Slash")
    } else if virtual_key == VK_OEM_3 {
        Some("Backquote")
    } else if virtual_key == VK_OEM_4 {
        Some("BracketLeft")
    } else if virtual_key == VK_OEM_5 {
        Some("Backslash")
    } else if virtual_key == VK_OEM_6 {
        Some("BracketRight")
    } else if virtual_key == VK_OEM_7 {
        Some("Quote")
    } else if virtual_key == VK_BACK {
        Some("Backspace")
    } else if virtual_key == VK_TAB {
        Some("Tab")
    } else if virtual_key == VK_SPACE {
        Some("Space")
    } else if virtual_key == VK_RETURN {
        if extended {
            Some("NumpadEnter")
        } else {
            Some("Enter")
        }
    } else if virtual_key == VK_CAPITAL {
        Some("CapsLock")
    } else if virtual_key == VK_ESCAPE {
        Some("Escape")
    } else if virtual_key == VK_PRIOR {
        Some("PageUp")
    } else if virtual_key == VK_NEXT {
        Some("PageDown")
    } else if virtual_key == VK_END {
        Some("End")
    } else if virtual_key == VK_HOME {
        Some("Home")
    } else if virtual_key == VK_LEFT {
        Some("ArrowLeft")
    } else if virtual_key == VK_UP {
        Some("ArrowUp")
    } else if virtual_key == VK_RIGHT {
        Some("ArrowRight")
    } else if virtual_key == VK_DOWN {
        Some("ArrowDown")
    } else if virtual_key == VK_SNAPSHOT {
        Some("PrintScreen")
    } else if virtual_key == VK_INSERT {
        Some("Insert")
    } else if virtual_key == VK_DELETE {
        Some("Delete")
    } else if virtual_key == VK_NUMLOCK {
        Some("NumLock")
    } else if virtual_key == VK_MULTIPLY {
        Some("NumpadMultiply")
    } else if virtual_key == VK_ADD {
        Some("NumpadAdd")
    } else if virtual_key == VK_SUBTRACT {
        Some("NumpadSubtract")
    } else if virtual_key == VK_DECIMAL {
        Some("NumpadDecimal")
    } else if virtual_key == VK_DIVIDE {
        Some("NumpadDivide")
    } else if virtual_key == VK_SCROLL {
        Some("ScrollLock")
    } else if virtual_key == VK_VOLUME_DOWN {
        Some("AudioVolumeDown")
    } else if virtual_key == VK_VOLUME_UP {
        Some("AudioVolumeUp")
    } else if virtual_key == VK_VOLUME_MUTE {
        Some("AudioVolumeMute")
    } else if virtual_key == VK_PLAY {
        Some("MediaPlay")
    } else if virtual_key == VK_MEDIA_PLAY_PAUSE {
        Some("MediaPlayPause")
    } else if virtual_key == VK_MEDIA_STOP {
        Some("MediaStop")
    } else if virtual_key == VK_MEDIA_NEXT_TRACK {
        Some("MediaTrackNext")
    } else if virtual_key == VK_MEDIA_PREV_TRACK {
        Some("MediaTrackPrevious")
    } else if virtual_key == VK_PAUSE {
        Some("Pause")
    } else {
        None
    }
}

/// The name a virtual key records as, or `None` for keys that cannot be
/// part of a shortcut.
pub fn virtual_key_name(virtual_key: u32, extended: bool) -> (name: Option<String>)
    ensures
        match name {
            Some(text) => key_name(virtual_key, extended) == Some(text@),
            None => key_name(virtual_key, extended) is None,
        },
{
    if 0x41 <= virtual_key && virtual_key <= 0x5a {
        let mut text = "Key".to_owned();
        push_char(&mut text, (virtual_key as u8) as char);
        return Some(text);
    }
    if 0x30 <= virtual_key && virtual_key <= 0x39 {
        let mut text = "Digit".to_owned();
        push_char(&mut text, (virtual_key as u8) as char);
        return Some(text);
    }
    if VK_F1 <= virtual_key && virtual_key <= VK_F24 {
        let number = u64_to_decimal((virtual_key - VK_F1 + 1) as u64);
        return Some(concatenated("F", number.as_str()));
    }
    if VK_NUMPAD0 <= virtual_key && virtual_key <= VK_NUMPAD9 {
        let number = u64_to_decimal((virtual_key - VK_NUMPAD0) as u64);
        return Some(concatenated("Numpad", number.as_str()));
    }
    match named_key_text(virtual_key, extended) {
        Some(name) => Some(name.to_owned()),
        None => None,
    }
}

/// The modifiers of a recorded shortcut, in the canonical order.
pub open spec fn modifier_prefix(modifiers: ShortcutModifiers) -> Seq<char> {
    (if modifiers.shift {
        "shift+"@
    } else {
        Seq::empty()
    }) + (if modifiers.control {
        "control+"@
    } else {
        Seq::empty()
    }) + (if modifiers.alt {
        "alt+"@
    } else {
        Seq::empty()
    }) + (if modifiers.super_key {
        "super+"@
    } else {
        Seq::empty()
    })
}

/// The shortcut that a key press records: the modifiers and the key's name,
/// as [`Shortcut::new`] canonicalizes them; `None` where the key has no name
/// or the shortcut parser rejects the chord.
pub fn shortcut_from_virtual_key(
    virtual_key: u32,
    extended: bool,
    modifiers: ShortcutModifiers,
) -> (shortcut: Option<Shortcut>)
    ensures
        match key_name(virtual_key, extended) {
            None => shortcut is None,
            Some(name) => match hotkey_canonical_text(trimmed(modifier_prefix(modifiers) + name)) {
                Some(canonical) => shortcut matches Some(recorded) && recorded.text() == canonical,
                None => shortcut is None,
            },
        },
{
    let key = match virtual_key_name(virtual_key, extended) {
        Some(key) => key,
        None => {
            return None;
        },
    };
    let mut text = String::new();
    if modifiers.shift {
        append_str(&mut text, "shift+");
    }
    if modifiers.control {
        append_str(&mut text, "control+");
    }
    if modifiers.alt {
        append_str(&mut text, "alt+");
    }
    if modifiers.super_key {
        append_str(&mut text, "super+");
    }
    let ghost prefix = text@;
    append_str(&mut text, key.as_str());
    proof {
        assert(prefix =~= modifier_prefix(modifiers));
    }
    match Shortcut::new(text.as_str()) {
        Ok(shortcut) => Some(shortcut),
        Err(_) => None,
    }
}

/// What a key press in a shortcut field does.
#[derive(Clone, Debug, PartialEq, Eq)]
pub enum RecordedKey {
    /// The dialog handles the key itself (Alt+F4 closes it).
    PassThrough,
    /// A modifier or a repeated key: nothing to record yet.
    Swallow,
    /// The field takes this shortcut.
    Record(Shortcut),
    /// The key cannot be part of a shortcut.
    Reject,
}

/// Decides what a key press in a shortcut field does: Alt+F4 is left to
/// the dialog, a modifier or an auto-repeated press is swallowed, and any
/// other key records the chord with the held modifiers, or is refused where
/// it makes no shortcut.
pub fn recorded_key(virtual_key: u32, repeated: bool, extended: bool, modifiers: ShortcutModifiers) -> (outcome: RecordedKey)
    ensures
        virtual_key == VK_F4 && modifiers.alt ==> outcome == RecordedKey::PassThrough,
        !(virtual_key == VK_F4 && modifiers.alt) && (is_modifier(virtual_key) || repeated) ==> outcome
            == RecordedKey::Swallow,
        !(virtual_key == VK_F4 && modifiers.alt) && !is_modifier(virtual_key) && !repeated ==> match key_name(
            virtual_key,
            extended,
        ) {
            None => outcome == RecordedKey::Reject,
            Some(name) => match hotkey_canonical_text(trimmed(modifier_prefix(modifiers) + name)) {
                Some(canonical) => outcome matches RecordedKey::Record(recorded) && recorded.text()
                    == canonical,
                None => outcome == RecordedKey::Reject,
            },
        },
{
    if virtual_key == VK_F4 && modifiers.alt {
        return RecordedKey::PassThrough;
    }
    if is_modifier_key(virtual_key) || repeated {
        return RecordedKey::Swallow;
    }
    match shortcut_from_virtual_key(virtual_key, extended, modifiers) {
        Some(shortcut) => RecordedKey::Record(shortcut),
        None => RecordedKey::Reject,
    }
}

/// The JPEG quality text to show while PNG is selected: the quality field is
/// hidden then, so an unusable value is replaced by the default quality
/// (`None`: leave the field as it is).
pub fn hidden_quality_replacement(image_format_index: usize, quality_text: &str) -> (replacement: Option<String>)
    ensures
        match replacement {
            None => image_format_index != 0 || (parse_u8_spec(trimmed(quality_text@)) matches Some(quality)
                && 1 <= quality <= 100),
            Some(text) => image_format_index == 0 && !(parse_u8_spec(trimmed(quality_text@)) matches Some(
                quality,
            ) && 1 <= quality <= 100) && text@ == decimal_text(crate::config::DEFAULT_JPEG_QUALITY as nat),
        },
{
    if image_format_index != 0 {
        return None;
    }
    let trimmed_text = trim(quality_text);
    match parse_u8(trimmed_text.as_str()) {
        Some(quality) => {
            if 1 <= quality && quality <= 100 {
                return None;
            }
        },
        None => {},
    }
    Some(u8_to_decimal(crate::config::DEFAULT_JPEG_QUALITY))
}

/// The dialog's control values, as the dialog reads and shows them.
#[derive(Clone, Debug, PartialEq, Eq)]
pub struct SettingsValues {
    pub fullscreen_shortcut: String,
    pub region_shortcut: String,
    pub autosave_directory: String,
    /// `0` for PNG, `1` for JPEG.
    pub image_format_index: usize,
    pub jpeg_quality: String,
    /// `0` fast, `1` default, `2` best.
    pub png_compression_index: usize,
    /// `0` for the monitor under the cursor, `1` for the virtual desktop.
    pub monitor_scope_index: usize,
    pub include_cursor: bool,
}

/// A rejected set of dialog values: the control to focus and the message to
/// show.
#[derive(Clone, Debug, PartialEq, Eq)]
pub struct SettingsInputError {
    pub control_id: i32,
    pub message: String,
}

impl SettingsInputError {
    pub fn new(control_id: i32, message: String) -> (error: Self)
        ensures
            error.control_id == control_id,
            error.message == message,
    {
        SettingsInputError { control_id, message }
    }
}

pub open spec fn format_index(format: ScreenshotFormat) -> usize {
    match format {
        ScreenshotFormat::Png => 0,
        ScreenshotFormat::Jpeg => 1,
    }
}

pub open spec fn compression_index(compression: PngCompression) -> usize {
    match compression {
        PngCompression::Fast => 0,
        PngCompression::Default => 1,
        PngCompression::Best => 2,
    }
}

pub open spec fn scope_index(scope: MonitorScope) -> usize {
    match scope {
        MonitorScope::CursorMonitor => 0,
        MonitorScope::VirtualDesktop => 1,
    }
}

/// `values` show `config`.
pub open spec fn shows_config(values: SettingsValues, config: Config) -> bool {
    &&& values.fullscreen_shortcut@ == config.fullscreen_shortcut.text()
    &&& values.region_shortcut@ == config.region_shortcut.text()
    &&& values.autosave_directory@ == config.autosave_directory@
    &&& values.image_format_index == format_index(config.image_format)
    &&& values.jpeg_quality@ == decimal_text(config.jpeg_quality as nat)
    &&& values.png_compression_index == compression_index(config.png_compression)
    &&& values.monitor_scope_index == scope_index(config.monitor_scope)
    &&& values.include_cursor == config.include_cursor
}

/// `config` is what `values` describe: the dialog's fields parsed, and every
/// setting that the dialog does not show taken from `base`.
pub open spec fn read_from_values(config: Config, values: SettingsValues, base: Config) -> bool {
    &&& hotkey_canonical_text(trimmed(values.fullscreen_shortcut@)) == Some(
        config.fullscreen_shortcut.text(),
    )
    &&& hotkey_canonical_text(trimmed(values.region_shortcut@)) == Some(
        config.region_shortcut.text(),
    )
    &&& config.autosave_directory@ == values.autosave_directory@
    &&& parse_u8_spec(trimmed(values.jpeg_quality@)) == Some(config.jpeg_quality)
    &&& format_index(config.image_format) == values.image_format_index
    &&& compression_index(config.png_compression) == values.png_compression_index
    &&& scope_index(config.monitor_scope) == values.monitor_scope_index
    &&& config.include_cursor == values.include_cursor
    &&& config.config_version == base.config_version
    &&& config.region_auto_copy == base.region_auto_copy
    &&& config.region_autosave == base.region_autosave
    &&& config.last_editor_tool == base.last_editor_tool
    &&& config.editor_color == base.editor_color
    &&& config.editor_stroke_width == base.editor_stroke_width
}

/// Two configurations hold the same settings.
pub open spec fn same_settings(first: Config, second: Config) -> bool {
    &&& first.config_version == second.config_version
    &&& first.fullscreen_shortcut.text() == second.fullscreen_shortcut.text()
    &&& first.region_shortcut.text() == second.region_shortcut.text()
    &&& first.autosave_directory@ == second.autosave_directory@
    &&& first.image_format == second.image_format
    &&& first.jpeg_quality == second.jpeg_quality
    &&& first.png_compression == second.png_compression
    &&& first.monitor_scope == second.monitor_scope
    &&& first.include_cursor == second.include_cursor
    &&& first.region_auto_copy == second.region_auto_copy
    &&& first.region_autosave == second.region_autosave
    &&& first.last_editor_tool == second.last_editor_tool
    &&& first.editor_color == second.editor_color
    &&& first.editor_stroke_width == second.editor_stroke_width
}

pub open spec fn fullscreen_invalid_prefix() -> Seq<char> {
    "Full-screen shortcut is invalid.\n\n"@
}

pub open spec fn region_invalid_prefix() -> Seq<char> {
    "Region shortcut is invalid.\n\n"@
}

pub open spec fn settings_invalid_prefix() -> Seq<char> {
    "Settings are invalid.\n\n"@
}

/// The control of the first check that `values` fail, with the message shown
/// for it (`None` for the message where it ends in the shortcut parser's own
/// explanation, which [`settings_outcome`] states as a prefix); `None` when
/// every check passes. The checks run in the order of
/// [`SettingsValues::into_config`], and then those of [`Config::validate`].
pub open spec fn first_settings_failure(
    values: SettingsValues,
    base: Config,
    autosave_is_file: bool,
) -> Option<(i32, Option<Seq<char>>)> {
    let fullscreen = hotkey_canonical_text(trimmed(values.fullscreen_shortcut@));
    let region = hotkey_canonical_text(trimmed(values.region_shortcut@));
    let quality = parse_u8_spec(trimmed(values.jpeg_quality@));
    if fullscreen is None {
        Some((IDC_FULLSCREEN_SHORTCUT, None))
    } else if region is None {
        Some((IDC_REGION_SHORTCUT, None))
    } else if quality is None {
        Some((IDC_JPEG_QUALITY, Some("JPEG quality must be a number from 1 to 100"@)))
    } else if values.image_format_index > 1 {
        Some((IDC_IMAGE_FORMAT, Some("Image format selection is invalid"@)))
    } else if values.png_compression_index > 2 {
        Some((IDC_PNG_COMPRESSION, Some("PNG compression selection is invalid"@)))
    } else if values.monitor_scope_index > 1 {
        Some((IDC_MONITOR_SCOPE, Some("Full-screen scope selection is invalid"@)))
    } else if base.config_version != CURRENT_CONFIG_VERSION {
        Some(
            (
                IDC_FULLSCREEN_SHORTCUT,
                Some(
                    settings_invalid_prefix() + validation_message(
                        ConfigValidationError::UnsupportedConfigVersion {
                            found: base.config_version,
                            supported: CURRENT_CONFIG_VERSION,
                        },
                    ),
                ),
            ),
        )
    } else if fullscreen == region {
        Some(
            (
                IDC_REGION_SHORTCUT,
                Some(
                    settings_invalid_prefix()
                        + "fullscreen and region shortcuts must differ (both are `"@
                        + fullscreen.unwrap() + "`)"@,
                ),
            ),
        )
    } else if !(1 <= quality.unwrap() <= 100) {
        Some(
            (
                IDC_JPEG_QUALITY,
                Some(
                    settings_invalid_prefix() + validation_message(
                        ConfigValidationError::InvalidJpegQuality(quality.unwrap()),
                    ),
                ),
            ),
        )
    } else if values.autosave_directory@.len() == 0 {
        Some(
            (
                IDC_AUTOSAVE_DIRECTORY,
                Some(
                    settings_invalid_prefix() + validation_message(
                        ConfigValidationError::EmptyAutosaveDirectory,
                    ),
                ),
            ),
        )
    } else if autosave_is_file {
        Some(
            (
                IDC_AUTOSAVE_DIRECTORY,
                Some(
                    settings_invalid_prefix()
                        + "autosave directory points to an existing file: `"@
                        + values.autosave_directory@ + "`"@,
                ),
            ),
        )
    } else if base.editor_stroke_width > MAX_EDITOR_STROKE_WIDTH {
        Some(
            (
                IDC_FULLSCREEN_SHORTCUT,
                Some(
                    settings_invalid_prefix() + validation_message(
                        ConfigValidationError::InvalidEditorStrokeWidth(base.editor_stroke_width),
                    ),
                ),
            ),
        )
    } else {
        None
    }
}

/// What [`SettingsValues::into_config`] gives for `values`, given whether
/// the autosave directory is an existing file.
pub open spec fn settings_outcome(
    values: SettingsValues,
    base: Config,
    autosave_is_file: bool,
    result: Result<Config, SettingsInputError>,
) -> bool {
    match result {
        Ok(config) => first_settings_failure(values, base, autosave_is_file) is None
            && read_from_values(config, values, base),
        Err(error) => match first_settings_failure(values, base, autosave_is_file) {
            None => false,
            Some((control_id, Some(message))) => error.control_id == control_id && error.message@
                == message,
            Some((control_id, None)) => error.control_id == control_id && (if control_id
                == IDC_FULLSCREEN_SHORTCUT {
                (fullscreen_invalid_prefix() + "invalid shortcut `"@ + trimmed(
                    values.fullscreen_shortcut@,
                ) + "`: "@).is_prefix_of(error.message@)
            } else {
                (region_invalid_prefix() + "invalid shortcut `"@ + trimmed(values.region_shortcut@)
                    + "`: "@).is_prefix_of(error.message@)
            }),
        },
    }
}

/// The control that a validation error is about.
pub open spec fn validation_control_spec(error: ConfigValidationError) -> i32 {
    match error {
        ConfigValidationError::InvalidShortcut { binding, .. } => match binding {
            crate::config::ShortcutBinding::Fullscreen => IDC_FULLSCREEN_SHORTCUT,
            crate::config::ShortcutBinding::Region => IDC_REGION_SHORTCUT,
        },
        ConfigValidationError::DuplicateShortcuts { .. } => IDC_REGION_SHORTCUT,
        ConfigValidationError::InvalidJpegQuality(_) => IDC_JPEG_QUALITY,
        ConfigValidationError::EmptyAutosaveDirectory => IDC_AUTOSAVE_DIRECTORY,
        ConfigValidationError::AutosaveDirectoryIsFile(_) => IDC_AUTOSAVE_DIRECTORY,
        ConfigValidationError::UnsupportedConfigVersion { .. } => IDC_FULLSCREEN_SHORTCUT,
        ConfigValidationError::InvalidEditorStrokeWidth(_) => IDC_FULLSCREEN_SHORTCUT,
    }
}

fn validation_control(error: &ConfigValidationError) -> (control_id: i32)
    ensures
        control_id == validation_control_spec(*error),
{
    match error {
        ConfigValidationError::InvalidShortcut { binding, .. } => match binding {
            crate::config::ShortcutBinding::Fullscreen => IDC_FULLSCREEN_SHORTCUT,
            crate::config::ShortcutBinding::Region => IDC_REGION_SHORTCUT,
        },
        ConfigValidationError::DuplicateShortcuts { .. } => IDC_REGION_SHORTCUT,
        ConfigValidationError::InvalidJpegQuality(_) => IDC_JPEG_QUALITY,
        ConfigValidationError::EmptyAutosaveDirectory => IDC_AUTOSAVE_DIRECTORY,
        ConfigValidationError::AutosaveDirectoryIsFile(_) => IDC_AUTOSAVE_DIRECTORY,
        ConfigValidationError::UnsupportedConfigVersion { .. } => IDC_FULLSCREEN_SHORTCUT,
        ConfigValidationError::InvalidEditorStrokeWidth(_) => IDC_FULLSCREEN_SHORTCUT,
    }
}

/// A candidate read from the dialog passes validation exactly when the
/// dialog's values pass every check.
proof fn lemma_candidate_valid(
    values: SettingsValues,
    base: Config,
    config: Config,
    autosave_is_file: bool,
)
    requires
        read_from_values(config, values, base),
        crate::config::is_canonical_shortcut(config.fullscreen_shortcut.text()),
        crate::config::is_canonical_shortcut(config.region_shortcut.text()),
        values.image_format_index <= 1,
        values.png_compression_index <= 2,
        values.monitor_scope_index <= 1,
    ensures
        crate::config::config_valid(config, autosave_is_file) <==> first_settings_failure(
            values,
            base,
            autosave_is_file,
        ) is None,
{
}

/// A candidate that fails validation fails the dialog's checks with the
/// validation error's control and message.
proof fn lemma_candidate_invalid(
    values: SettingsValues,
    base: Config,
    config: Config,
    autosave_is_file: bool,
    error: ConfigValidationError,
)
    requires
        read_from_values(config, values, base),
        crate::config::is_canonical_shortcut(config.fullscreen_shortcut.text()),
        crate::config::is_canonical_shortcut(config.region_shortcut.text()),
        values.image_format_index <= 1,
        values.png_compression_index <= 2,
        values.monitor_scope_index <= 1,
        crate::config::validation_outcome(config, autosave_is_file, Err(error)),
    ensures
        first_settings_failure(values, base, autosave_is_file) == Some(
            (
                validation_control_spec(error),
                Some(settings_invalid_prefix() + validation_message(error)),
            ),
        ),
{
}

impl SettingsValues {
    /// The values that show `config` in the dialog.
    pub fn from_config(config: &Config) -> (values: Self)
        ensures
            shows_config(values, *config),
    {
        SettingsValues {
            fullscreen_shortcut: config.fullscreen_shortcut.0.clone(),
            region_shortcut: config.region_shortcut.0.clone(),
            autosave_directory: config.autosave_directory.clone(),
            image_format_index: match config.image_format {
                ScreenshotFormat::Png => 0,
                ScreenshotFormat::Jpeg => 1,
            },
            jpeg_quality: u8_to_decimal(config.jpeg_quality),
            png_compression_index: match config.png_compression {
                PngCompression::Fast => 0,
                PngCompression::Default => 1,
                PngCompression::Best => 2,
            },
            monitor_scope_index: match config.monitor_scope {
                MonitorScope::CursorMonitor => 0,
                MonitorScope::VirtualDesktop => 1,
            },
            include_cursor: config.include_cursor,
        }
    }

    /// Parses and validates the dialog's values. Settings that the dialog does
    /// not show are taken from `base`, the configuration in effect.
    ///
    /// Whether the autosave directory is an existing file is asked of the file
    /// system; the result is [`settings_outcome`] for its answer.
    pub fn into_config(self, base: &Config) -> (result: Result<Config, SettingsInputError>)
        ensures
            settings_outcome(self, *base, false, result) || settings_outcome(
                self,
                *base,
                true,
                result,
            ),
    {
        let ghost values = self;
        let fullscreen_shortcut = match Shortcut::new(self.fullscreen_shortcut.as_str()) {
            Ok(shortcut) => shortcut,
            Err(error) => {
                let message = concatenated(
                    "Full-screen shortcut is invalid.\n\n",
                    error.message().as_str(),
                );
                proof {
                    let prefix = fullscreen_invalid_prefix() + "invalid shortcut `"@ + trimmed(
                        values.fullscreen_shortcut@,
                    ) + "`: "@;
                    assert(prefix.is_prefix_of(message@)) by {
                        assert(message@.take(prefix.len() as int) =~= prefix);
                    }
                }
                return Err(SettingsInputError::new(IDC_FULLSCREEN_SHORTCUT, message));
            },
        };
        let region_shortcut = match Shortcut::new(self.region_shortcut.as_str()) {
            Ok(shortcut) => shortcut,
            Err(error) => {
                let message = concatenated("Region shortcut is invalid.\n\n", error.message().as_str());
                proof {
                    let prefix = region_invalid_prefix() + "invalid shortcut `"@ + trimmed(
                        values.region_shortcut@,
                    ) + "`: "@;
                    assert(prefix.is_prefix_of(message@)) by {
                        assert(message@.take(prefix.len() as int) =~= prefix);
                    }
                }
                return Err(SettingsInputError::new(IDC_REGION_SHORTCUT, message));
            },
        };
        let quality_text = trim(self.jpeg_quality.as_str());
        let jpeg_quality = match parse_u8(quality_text.as_str()) {
            Some(quality) => quality,
            None => {
                return Err(
                    SettingsInputError::new(
                        IDC_JPEG_QUALITY,
                        "JPEG quality must be a number from 1 to 100".to_owned(),
                    ),
                );
            },
        };
        let image_format = if self.image_format_index == 0 {
            ScreenshotFormat::Png
        } else if self.image_format_index == 1 {
            ScreenshotFormat::Jpeg
        } else {
            return Err(
                SettingsInputError::new(
                    IDC_IMAGE_FORMAT,
                    "Image format selection is invalid".to_owned(),
                ),
            );
        };
        let png_compression = if self.png_compression_index == 0 {
            PngCompression::Fast
        } else if self.png_compression_index == 1 {
            PngCompression::Default
        } else if self.png_compression_index == 2 {
            PngCompression::Best
        } else {
            return Err(
                SettingsInputError::new(
                    IDC_PNG_COMPRESSION,
                    "PNG compression selection is invalid".to_owned(),
                ),
            );
        };
        let monitor_scope = if self.monitor_scope_index == 0 {
            MonitorScope::CursorMonitor
        } else if self.monitor_scope_index == 1 {
            MonitorScope::VirtualDesktop
        } else {
            return Err(
                SettingsInputError::new(
                    IDC_MONITOR_SCOPE,
                    "Full-screen scope selection is invalid".to_owned(),
                ),
            );
        };
        let config = Config {
            config_version: base.config_version,
            fullscreen_shortcut,
            region_shortcut,
            autosave_directory: self.autosave_directory,
            image_format,
            jpeg_quality,
            png_compression,
            monitor_scope,
            include_cursor: self.include_cursor,
            region_auto_copy: base.region_auto_copy,
            region_autosave: base.region_autosave,
            last_editor_tool: base.last_editor_tool,
            editor_color: base.editor_color,
            editor_stroke_width: base.editor_stroke_width,
        };
        proof {
            assert(read_from_values(config, values, *base));
        }
        match config.validate() {
            Ok(()) => {
                proof {
                    lemma_candidate_valid(values, *base, config, false);
                    lemma_candidate_valid(values, *base, config, true);
                }
                Ok(config)
            },
            Err(error) => {
                let control_id = validation_control(&error);
                let message = concatenated("Settings are invalid.\n\n", error.message().as_str());
                proof {
                    if crate::config::validation_outcome(config, false, Err(error)) {
                        lemma_candidate_invalid(values, *base, config, false, error);
                    } else {
                        lemma_candidate_invalid(values, *base, config, true, error);
                    }
                }
                Err(SettingsInputError::new(control_id, message))
            },
        }
    }
}

/// Showing a configuration in the dialog and reading it back gives the same
/// settings, for a configuration that validates and whose shortcuts are in
/// canonical form.
pub proof fn lemma_settings_round_trip(
    values: SettingsValues,
    config: Config,
    autosave_is_file: bool,
    result: Result<Config, SettingsInputError>,
)
    requires
        shows_config(values, config),
        crate::config::config_valid(config, autosave_is_file),
        crate::config::is_canonical_shortcut(config.fullscreen_shortcut.text()),
        crate::config::is_canonical_shortcut(config.region_shortcut.text()),
        settings_outcome(values, config, autosave_is_file, result),
    ensures
        result matches Ok(restored) && same_settings(restored, config),
{
    crate::text::lemma_decimal_round_trip(config.jpeg_quality);
    assert(first_settings_failure(values, config, autosave_is_file) is None);
}

} // verus!
