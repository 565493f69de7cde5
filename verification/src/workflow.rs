//! Decisions of the application's capture and settings workflows: the file
//! names of saved captures, the format a chosen file name asks for, and the
//! order in which new settings are activated, persisted, or rolled back.
use crate::config::{validation_outcome, Config, ConfigValidationError};
use crate::encode::OutputFormat;
use crate::text::{
    append_str, ascii_lowercase_text, chars_of, concatenated, decimal_text, eq_ignore_ascii_case,
    push_char, string_from_chars, u64_to_decimal,
};
use vstd::prelude::*;

verus! {

/// A character that separates path components on Windows.
pub open spec fn is_separator(c: char) -> bool {
    c == '/' || c == '\\'
}

/// An ASCII letter, as a drive letter is.
pub open spec fn is_ascii_letter(c: char) -> bool {
    ('a' <= c && c <= 'z') || ('A' <= c && c <= 'Z')
}

/// Length of a drive prefix such as `C:` at the start of a path, or `0`.
pub open spec fn prefix_len(path: Seq<char>) -> int {
    if path.len() >= 2 && is_ascii_letter(path[0]) && path[1] == ':' {
        2
    } else {
        0
    }
}

/// The path starts with two separators: a UNC, device or verbatim prefix
/// (`\\server\share`, `\\.\device`, `\\?\...`), which the file-name model
/// below does not describe.
pub open spec fn has_share_prefix(path: Seq<char>) -> bool {
    path.len() >= 2 && is_separator(path[0]) && is_separator(path[1])
}

/// Index just after the last separator of `path`, or `0`.
pub open spec fn name_start(path: Seq<char>) -> int
    decreases path.len(),
{
    if path.len() == 0 {
        0
    } else if is_separator(path.last()) {
        path.len() as int
    } else {
        name_start(path.drop_last())
    }
}

/// End of the path's last component: trailing separators, and trailing `.`
/// components that follow a separator, are not part of it.
pub open spec fn name_end(path: Seq<char>) -> int
    decreases path.len(),
{
    if path.len() == 0 {
        0
    } else if is_separator(path.last()) {
        name_end(path.drop_last())
    } else if path.last() == '.' && path.len() >= 2 && is_separator(path[path.len() - 2]) {
        name_end(path.drop_last())
    } else {
        path.len() as int
    }
}

/// Start of the path's last component: after the last separator before
/// [`name_end`], and not inside a drive prefix.
pub open spec fn name_begin(path: Seq<char>) -> int {
    let start = name_start(path.take(name_end(path)));
    if start < prefix_len(path) {
        prefix_len(path)
    } else {
        start
    }
}

/// Index of the last `.` in `text`, or `-1`.
pub open spec fn last_dot(text: Seq<char>) -> int
    decreases text.len(),
{
    if text.len() == 0 {
        -1
    } else if text.last() == '.' {
        text.len() - 1
    } else {
        last_dot(text.drop_last())
    }
}

/// The last component of a path, as `std::path` finds it on Windows.
pub open spec fn file_name(path: Seq<char>) -> Seq<char> {
    path.subrange(name_begin(path), name_end(path))
}

/// The last component names a file or folder: it is not empty and neither
/// the current directory `.` nor the parent `..`.
pub open spec fn is_named(name: Seq<char>) -> bool {
    name.len() > 0 && name != seq!['.'] && name != seq!['.', '.']
}

/// Index in the file name of the dot that starts its extension, if it has
/// one: the last dot, unless nothing precedes it or the name is `..`.
pub open spec fn extension_dot(name: Seq<char>) -> Option<int> {
    let dot = last_dot(name);
    if dot <= 0 || name =~= seq!['.', '.'] {
        None
    } else {
        Some(dot)
    }
}

/// The extension of a path's file name, without its dot.
pub open spec fn path_extension(path: Seq<char>) -> Option<Seq<char>> {
    let name = file_name(path);
    if !is_named(name) {
        None
    } else {
        match extension_dot(name) {
            Some(dot) => Some(name.subrange(dot + 1, name.len() as int)),
            None => None,
        }
    }
}

/// The path with its file name's extension replaced by `extension` (or
/// added where it has none; an empty extension removes it). The path is
/// cut just after the file name's stem, so trailing separators and `.`
/// components go. A path without a file name stays as it is.
pub open spec fn with_extension(path: Seq<char>, extension: Seq<char>) -> Seq<char> {
    let name = file_name(path);
    if !is_named(name) {
        path
    } else {
        let stem_end = match extension_dot(name) {
            Some(dot) => name_begin(path) + dot,
            None => name_end(path),
        };
        let stem = path.subrange(0, stem_end);
        if extension.len() == 0 {
            stem
        } else {
            stem + seq!['.'] + extension
        }
    }
}

proof fn lemma_name_start_bounds(path: Seq<char>)
    ensures
        0 <= name_start(path) <= path.len(),
        forall|i: int| name_start(path) <= i < path.len() ==> !is_separator(#[trigger] path[i]),
        name_start(path) > 0 ==> is_separator(path[name_start(path) - 1]),
    decreases path.len(),
{
    if path.len() > 0 && !is_separator(path.last()) {
        lemma_name_start_bounds(path.drop_last());
        assert forall|i: int| name_start(path) <= i < path.len() implies !is_separator(
            #[trigger] path[i],
        ) by {
            if i < path.len() - 1 {
                assert(path[i] == path.drop_last()[i]);
            }
        }
        if name_start(path) > 0 {
            assert(path[name_start(path) - 1] == path.drop_last()[name_start(path) - 1]);
        }
    }
}

proof fn lemma_name_end_bounds(path: Seq<char>)
    ensures
        0 <= name_end(path) <= path.len(),
        prefix_len(path) <= name_end(path),
        name_end(path) > 0 ==> !is_separator(path[name_end(path) - 1]),
    decreases path.len(),
{
    if path.len() > 0 && (is_separator(path.last()) || (path.last() == '.' && path.len() >= 2
        && is_separator(path[path.len() - 2]))) {
        let shorter = path.drop_last();
        lemma_name_end_bounds(shorter);
        if prefix_len(path) == 2 {
            assert(shorter[0] == path[0] && shorter[1] == path[1]);
        }
        if name_end(path) > 0 {
            assert(shorter[name_end(path) - 1] == path[name_end(path) - 1]);
        }
    }
}

proof fn lemma_name_bounds(path: Seq<char>)
    ensures
        0 <= name_begin(path) <= name_end(path) <= path.len(),
        forall|i: int| name_begin(path) <= i < name_end(path) ==> !is_separator(#[trigger] path[i]),
{
    lemma_name_end_bounds(path);
    let end = name_end(path);
    lemma_name_start_bounds(path.take(end));
    assert forall|i: int| name_begin(path) <= i < name_end(path) implies !is_separator(#[trigger] path[i]) by {
        assert(path.take(end)[i] == path[i]);
    }
}

proof fn lemma_last_dot_bounds(text: Seq<char>)
    ensures
        -1 <= last_dot(text) < text.len(),
        last_dot(text) >= 0 ==> text[last_dot(text)] == '.',
        forall|i: int| last_dot(text) < i < text.len() ==> #[trigger] text[i] != '.',
    decreases text.len(),
{
    if text.len() > 0 && text.last() != '.' {
        lemma_last_dot_bounds(text.drop_last());
        assert forall|i: int| last_dot(text) < i < text.len() implies #[trigger] text[i] != '.' by {
            if i < text.len() - 1 {
                assert(text[i] == text.drop_last()[i]);
            }
        }
        if last_dot(text) >= 0 {
            assert(text[last_dot(text)] == text.drop_last()[last_dot(text)]);
        }
    }
}

/// Index just after the last separator before `end`.
fn separator_after(characters: &Vec<char>, end: usize) -> (start: usize)
    requires
        end <= characters@.len(),
    ensures
        start == name_start(characters@.take(end as int)),
{
    let ghost path = characters@.take(end as int);
    let mut index = end;
    proof {
        assert(path.take(path.len() as int) =~= path);
    }
    while index > 0 && !(characters[index - 1] == '/' || characters[index - 1] == '\\')
        invariant
            index <= end <= characters@.len(),
            path == characters@.take(end as int),
            name_start(path) == name_start(path.take(index as int)),
        decreases index,
    {
        proof {
            assert(path.take(index as int).drop_last() =~= path.take(index - 1));
        }
        index -= 1;
    }
    proof {
        if index > 0 {
            assert(path.take(index as int).last() == characters@[index - 1]);
        }
    }
    index
}

/// The bounds `(begin, end)` of the file name.
fn file_name_bounds(characters: &Vec<char>) -> (bounds: (usize, usize))
    ensures
        bounds.0 == name_begin(characters@),
        bounds.1 == name_end(characters@),
{
    let ghost path = characters@;
    let mut end = characters.len();
    proof {
        assert(path.take(path.len() as int) =~= path);
    }
    loop
        invariant
            end <= path.len(),
            path == characters@,
            name_end(path) == name_end(path.take(end as int)),
        ensures
            end <= path.len(),
            name_end(path) == end,
        decreases end,
    {
        let ghost current = path.take(end as int);
        if end > 0 && (characters[end - 1] == '/' || characters[end - 1] == '\\') {
            proof {
                assert(current.last() == characters@[end - 1]);
                assert(current.drop_last() =~= path.take(end - 1));
            }
            end -= 1;
        } else if end >= 2 && characters[end - 1] == '.' && (characters[end - 2] == '/'
            || characters[end - 2] == '\\') {
            proof {
                assert(current.last() == characters@[end - 1]);
                assert(current[current.len() - 2] == characters@[end - 2]);
                assert(current.drop_last() =~= path.take(end - 1));
            }
            end -= 1;
        } else {
            proof {
                if end > 0 {
                    assert(current.last() == characters@[end - 1]);
                }
                if end >= 2 {
                    assert(current[current.len() - 2] == characters@[end - 2]);
                }
                assert(name_end(current) == end);
            }
            break;
        }
    }
    let start = separator_after(characters, end);
    let drive = characters.len() >= 2 && characters[1] == ':' && (('a' <= characters[0]
        && characters[0] <= 'z') || ('A' <= characters[0] && characters[0] <= 'Z'));
    let prefix: usize = if drive {
        2
    } else {
        0
    };
    if start < prefix {
        (prefix, end)
    } else {
        (start, end)
    }
}

/// Index of the last dot in `begin..end`, relative to `begin`, if any.
fn last_dot_between(characters: &Vec<char>, begin: usize, end: usize) -> (dot: Option<usize>)
    requires
        begin <= end <= characters@.len(),
    ensures
        match dot {
            Some(dot) => dot == last_dot(characters@.subrange(begin as int, end as int)),
            None => last_dot(characters@.subrange(begin as int, end as int)) == -1,
        },
{
    let ghost name = characters@.subrange(begin as int, end as int);
    let mut index = end;
    proof {
        assert(name.take(name.len() as int) =~= name);
    }
    while index > begin && characters[index - 1] != '.'
        invariant
            begin <= index <= end <= characters@.len(),
            name == characters@.subrange(begin as int, end as int),
            last_dot(name) == last_dot(name.take(index - begin)),
        decreases index,
    {
        proof {
            assert(name.take(index - begin).drop_last() =~= name.take(index - begin - 1));
            assert(name.take(index - begin).last() == characters@[index - 1]);
        }
        index -= 1;
    }
    proof {
        if index > begin {
            assert(name.take(index - begin).last() == characters@[index - 1]);
        } else {
            assert(name.take(0) =~= Seq::<char>::empty());
        }
    }
    if index > begin {
        Some(index - begin - 1)
    } else {
        None
    }
}

/// Whether `begin..end` is a named component, and where the extension's dot
/// sits in it, if it has an extension.
fn name_dot(characters: &Vec<char>, begin: usize, end: usize) -> (result: (bool, Option<usize>))
    requires
        begin <= end <= characters@.len(),
    ensures
        result.0 == is_named(characters@.subrange(begin as int, end as int)),
        match result.1 {
            Some(dot) => extension_dot(characters@.subrange(begin as int, end as int)) == Some(
                dot as int,
            ) && 0 < dot < end - begin,
            None => extension_dot(characters@.subrange(begin as int, end as int)) is None,
        },
{
    let ghost name = characters@.subrange(begin as int, end as int);
    let length = end - begin;
    let current = length == 1 && characters[begin] == '.';
    let parent = length == 2 && characters[begin] == '.' && characters[begin + 1] == '.';
    proof {
        if length >= 1 {
            assert(name[0] == characters@[begin as int]);
        }
        if length >= 2 {
            assert(name[1] == characters@[begin + 1]);
        }
        if current {
            assert(name =~= seq!['.']);
        }
        if parent {
            assert(name =~= seq!['.', '.']);
        }
        if name =~= seq!['.'] {
            assert(current);
        }
        if name =~= seq!['.', '.'] {
            assert(parent);
        }
        lemma_last_dot_bounds(name);
    }
    let named = length > 0 && !current && !parent;
    let dot = match last_dot_between(characters, begin, end) {
        Some(dot) => if dot == 0 || parent {
            None
        } else {
            Some(dot)
        },
        None => None,
    };
    (named, dot)
}

/// The extension of a path's file name, without its dot. Paths that start
/// with two separators are not described (see [`has_share_prefix`]).
pub fn extension_of(path: &str) -> (extension: Option<String>)
    ensures
        !has_share_prefix(path@) ==> match extension {
            Some(text) => path_extension(path@) == Some(text@),
            None => path_extension(path@) is None,
        },
{
    let characters = chars_of(path);
    let (begin, end) = file_name_bounds(&characters);
    proof {
        lemma_name_bounds(path@);
    }
    let (named, dot) = name_dot(&characters, begin, end);
    if !named {
        return None;
    }
    match dot {
        Some(dot) => {
            let ghost name = path@.subrange(begin as int, end as int);
            let mut text = String::new();
            let mut index = begin + dot + 1;
            while index < end
                invariant
                    characters@ == path@,
                    begin + dot + 1 <= index <= end <= characters@.len(),
                    text@ == path@.subrange(begin + dot + 1, index as int),
                decreases end - index,
            {
                push_char(&mut text, characters[index]);
                proof {
                    assert(path@.subrange(begin + dot + 1, index as int).push(path@[index as int])
                        =~= path@.subrange(begin + dot + 1, index + 1));
                }
                index += 1;
            }
            proof {
                assert(name.subrange(dot + 1, name.len() as int) =~= path@.subrange(
                    begin + dot + 1,
                    end as int,
                ));
            }
            Some(text)
        },
        None => None,
    }
}

/// `path` with its extension replaced by `extension` (see
/// [`with_extension`]). Paths that start with two separators are not
/// described (see [`has_share_prefix`]).
pub fn set_extension(path: &str, extension: &str) -> (result: String)
    ensures
        !has_share_prefix(path@) ==> result@ == with_extension(path@, extension@),
{
    let characters = chars_of(path);
    let (begin, end) = file_name_bounds(&characters);
    proof {
        lemma_name_bounds(path@);
    }
    let (named, dot) = name_dot(&characters, begin, end);
    if !named {
        return string_from_chars(characters.as_slice());
    }
    let stem_end = match dot {
        Some(dot) => begin + dot,
        None => end,
    };
    let mut text = String::new();
    let mut index: usize = 0;
    while index < stem_end
        invariant
            characters@ == path@,
            stem_end <= characters@.len(),
            index <= stem_end,
            text@ == path@.subrange(0, index as int),
        decreases stem_end - index,
    {
        push_char(&mut text, characters[index]);
        proof {
            assert(path@.subrange(0, index as int).push(path@[index as int]) =~= path@.subrange(
                0,
                index + 1,
            ));
        }
        index += 1;
    }
    if extension.is_empty() {
        return text;
    }
    push_char(&mut text, '.');
    append_str(&mut text, extension);
    text
}

/// The path, with its extension set to `extension` unless it already has
/// that extension in any ASCII case.
pub open spec fn ensured_extension(path: Seq<char>, extension: Seq<char>) -> Seq<char> {
    match path_extension(path) {
        Some(current) => if ascii_lowercase_text(current) == ascii_lowercase_text(extension) {
            path
        } else {
            with_extension(path, extension)
        },
        None => with_extension(path, extension),
    }
}

/// Gives a chosen save path the extension of the encoder that will write
/// it, keeping an extension that already matches in any ASCII case.
pub fn ensure_extension(path: &str, extension: &str) -> (result: String)
    ensures
        !has_share_prefix(path@) ==> result@ == ensured_extension(path@, extension@),
{
    let matches = match extension_of(path) {
        Some(current) => eq_ignore_ascii_case(current.as_str(), extension),
        None => false,
    };
    if matches {
        path.to_owned()
    } else {
        set_extension(path, extension)
    }
}

/// The format that a file name's extension asks for: `png` for PNG, `jpg`
/// or `jpeg` for JPEG, in any ASCII case.
pub open spec fn format_for_path(path: Seq<char>) -> Option<OutputFormat> {
    match path_extension(path) {
        Some(extension) => if ascii_lowercase_text(extension) == "png"@ {
            Some(OutputFormat::Png)
        } else if ascii_lowercase_text(extension) == "jpg"@ || ascii_lowercase_text(extension)
            == "jpeg"@ {
            Some(OutputFormat::Jpeg)
        } else {
            None
        },
        None => None,
    }
}

/// The output format that the extension of a chosen path selects.
pub fn output_format_from_path(path: &str) -> (format: Option<OutputFormat>)
    ensures
        !has_share_prefix(path@) ==> format == format_for_path(path@),
{
    let extension = match extension_of(path) {
        Some(extension) => extension,
        None => {
            return None;
        },
    };
    proof {
        reveal_strlit("png");
        reveal_strlit("jpg");
        reveal_strlit("jpeg");
        assert(ascii_lowercase_text("png"@) =~= "png"@);
        assert(ascii_lowercase_text("jpg"@) =~= "jpg"@);
        assert(ascii_lowercase_text("jpeg"@) =~= "jpeg"@);
    }
    if eq_ignore_ascii_case(extension.as_str(), "png") {
        Some(OutputFormat::Png)
    } else if eq_ignore_ascii_case(extension.as_str(), "jpg") || eq_ignore_ascii_case(
        extension.as_str(),
        "jpeg",
    ) {
        Some(OutputFormat::Jpeg)
    } else {
        None
    }
}

/// The name of an autosaved capture: the timestamp stem, then `_` and the
/// suffix where the suffix is not zero, then the extension.
pub open spec fn autosave_name(stem: Seq<char>, suffix: nat, extension: Seq<char>) -> Seq<char> {
    if suffix == 0 {
        stem + seq!['.'] + extension
    } else {
        stem + seq!['_'] + decimal_text(suffix) + seq!['.'] + extension
    }
}

/// The file name of the `suffix`-th candidate for an autosaved capture.
pub fn autosave_file_name(stem: &str, suffix: u64, extension: &str) -> (name: String)
    ensures
        name@ == autosave_name(stem@, suffix as nat, extension@),
{
    let mut name = stem.to_owned();
    if suffix != 0 {
        push_char(&mut name, '_');
        append_str(&mut name, u64_to_decimal(suffix).as_str());
    }
    push_char(&mut name, '.');
    append_str(&mut name, extension);
    name
}

/// How many numbered names an autosave tries before it falls back to a
/// name made unique by the process.
pub const AUTOSAVE_CANDIDATES: u32 = 10_000;

/// The candidate names of an autosave, in the order they are tried: the
/// plain and numbered names while `attempt` is below
/// [`AUTOSAVE_CANDIDATES`], then the stem, `_`, the process id and the
/// extension, which is used whether or not the file exists.
pub open spec fn autosave_candidate_name(stem: Seq<char>, extension: Seq<char>, attempt: nat, process_id: nat) -> Seq<char> {
    if attempt < AUTOSAVE_CANDIDATES {
        autosave_name(stem, attempt, extension)
    } else {
        stem + seq!['_'] + decimal_text(process_id) + seq!['.'] + extension
    }
}

/// The `attempt`-th candidate name of an autosave.
pub fn autosave_candidate(stem: &str, extension: &str, attempt: u32, process_id: u32) -> (name: String)
    ensures
        name@ == autosave_candidate_name(stem@, extension@, attempt as nat, process_id as nat),
{
    if attempt < AUTOSAVE_CANDIDATES {
        autosave_file_name(stem, attempt as u64, extension)
    } else {
        let mut name = stem.to_owned();
        push_char(&mut name, '_');
        append_str(&mut name, u64_to_decimal(process_id as u64).as_str());
        push_char(&mut name, '.');
        append_str(&mut name, extension);
        name
    }
}

proof fn lemma_name_start_append(first: Seq<char>, second: Seq<char>)
    requires
        forall|i: int| 0 <= i < second.len() ==> !is_separator(#[trigger] second[i]),
    ensures
        name_start(first + second) == name_start(first),
    decreases second.len(),
{
    if second.len() == 0 {
        assert(first + second =~= first);
    } else {
        assert((first + second).drop_last() =~= first + second.drop_last());
        assert((first + second).last() == second.last());
        lemma_name_start_append(first, second.drop_last());
    }
}

proof fn lemma_last_dot_append(first: Seq<char>, second: Seq<char>)
    requires
        forall|i: int| 0 <= i < second.len() ==> #[trigger] second[i] != '.',
    ensures
        last_dot(first + second) == last_dot(first),
    decreases second.len(),
{
    if second.len() == 0 {
        assert(first + second =~= first);
    } else {
        assert((first + second).drop_last() =~= first + second.drop_last());
        assert((first + second).last() == second.last());
        lemma_last_dot_append(first, second.drop_last());
    }
}

/// Giving a path the extension of a format makes the path select that
/// format: a saved capture's name and encoder agree. This holds for every
/// path with a file name.
pub proof fn lemma_ensured_extension_selects_format(path: Seq<char>, format: OutputFormat)
    requires
        is_named(file_name(path)),
    ensures
        format_for_path(ensured_extension(path, format.extension_spec())) == Some(format),
{
    let extension = format.extension_spec();
    reveal_strlit("png");
    reveal_strlit("jpg");
    reveal_strlit("jpeg");
    assert(ascii_lowercase_text(extension) =~= extension);
    match format {
        OutputFormat::Png => {
            assert(extension =~= "png"@);
        },
        OutputFormat::Jpeg => {
            assert(extension =~= "jpg"@);
            assert(extension[0] != "png"@[0]);
            assert(extension != "png"@);
        },
    }
    match path_extension(path) {
        Some(current) => {
            if ascii_lowercase_text(current) == ascii_lowercase_text(extension) {
                return;
            }
        },
        None => {},
    }
    let begin = name_begin(path);
    let end = name_end(path);
    let name = file_name(path);
    lemma_name_bounds(path);
    lemma_name_end_bounds(path);
    lemma_last_dot_bounds(name);
    let stem_end = match extension_dot(name) {
        Some(dot) => begin + dot,
        None => end,
    };
    assert(begin < stem_end <= end);
    let stem = path.subrange(0, stem_end);
    let result = stem + seq!['.'] + extension;
    assert(with_extension(path, extension) == result);
    assert(forall|i: int| 0 <= i < extension.len() ==> !is_separator(#[trigger] extension[i])
        && extension[i] != '.');
    let tail = seq!['.'] + extension;
    assert(forall|i: int| 0 <= i < tail.len() ==> !is_separator(#[trigger] tail[i]));
    assert(result =~= stem + tail);
    // The result ends in a letter of the extension, so its last component
    // runs to its end.
    assert(result.last() == extension.last());
    assert(name_end(result) == result.len());
    assert(result.take(result.len() as int) =~= result);
    // Its last separator is the one before the path's file name.
    assert(path.take(end) =~= stem + path.subrange(stem_end, end));
    lemma_name_start_append(stem, path.subrange(stem_end, end));
    lemma_name_start_append(stem, tail);
    assert(name_start(result) == name_start(path.take(end)));
    // The drive prefix lies before the stem's end and is unchanged.
    if prefix_len(path) == 2 {
        assert(result[0] == path[0] && result[1] == path[1]);
    }
    if prefix_len(result) == 2 {
        assert(stem_end >= 2);
        assert(result[0] == path[0] && result[1] == path[1]);
    }
    assert(prefix_len(result) == prefix_len(path));
    assert(name_begin(result) == begin);
    let new_name = file_name(result);
    assert(new_name =~= path.subrange(begin, stem_end) + seq!['.'] + extension);
    lemma_last_dot_append(path.subrange(begin, stem_end) + seq!['.'], extension);
    assert((path.subrange(begin, stem_end) + seq!['.']).last() == '.');
    assert(last_dot(new_name) == stem_end - begin);
    assert(new_name.len() > 2);
    assert(new_name[new_name.len() - 1] == extension.last());
    assert(is_named(new_name));
    assert(!(new_name =~= seq!['.', '.']));
    assert(path_extension(result) == Some(new_name.subrange(stem_end - begin + 1, new_name.len() as int)));
    assert(new_name.subrange(stem_end - begin + 1, new_name.len() as int) =~= extension);
}

/// One call made on a [`SettingsCommitBackend`] that changes it, with what
/// the call returned.
pub enum CommitCall {
    Activate(Config, Result<(), String>),
    Persist(Config, Result<(), String>),
    Restore(Config, bool, Result<(), String>),
}

/// The application's side of committing new settings: the global shortcut
/// registrations and the settings file.
///
/// An implementation that describes itself for proofs sets
/// `obeys_commit_spec` to `true` and gives `calls`, the history of the
/// changing calls made on it, and `registration`, the state that
/// `shortcuts_registered` reads. One that keeps the defaults is described
/// by nothing below.
pub trait SettingsCommitBackend {
    closed spec fn obeys_commit_spec() -> bool {
        false
    }

    closed spec fn calls(&self) -> Seq<CommitCall> {
        Seq::empty()
    }

    closed spec fn registration(&self) -> bool {
        false
    }

    /// Whether the capture shortcuts are registered now.
    fn shortcuts_registered(&self) -> (registered: bool)
        ensures
            Self::obeys_commit_spec() ==> registered == self.registration(),
    ;

    /// Registers the shortcuts of `config` in place of the current ones.
    fn activate_shortcuts(&mut self, config: &Config) -> (result: Result<(), String>)
        ensures
            Self::obeys_commit_spec() ==> final(self).calls() == old(self).calls().push(
                CommitCall::Activate(*config, result),
            ),
    ;

    /// Writes `config` to the settings file.
    fn persist_settings(&mut self, config: &Config) -> (result: Result<(), String>)
        ensures
            Self::obeys_commit_spec() ==> final(self).calls() == old(self).calls().push(
                CommitCall::Persist(*config, result),
            ),
    ;

    /// Puts back the shortcuts of `config`, registered or not.
    fn restore_shortcuts(&mut self, config: &Config, should_be_registered: bool) -> (result: Result<
        (),
        String,
    >)
        ensures
            Self::obeys_commit_spec() ==> final(self).calls() == old(self).calls().push(
                CommitCall::Restore(*config, should_be_registered, result),
            ),
    ;
}

/// The step of a settings commit that failed.
#[derive(Clone, Copy, Debug, PartialEq, Eq, Structural)]
pub enum CommitStage {
    Activate,
    Persist,
}

/// Why new settings were not committed.
#[derive(Clone, Debug, PartialEq, Eq)]
pub enum CommitError {
    /// The settings do not validate; nothing was changed.
    Invalid(ConfigValidationError),
    /// A step failed and the previous shortcut state was restored.
    Restored { stage: CommitStage, reason: String },
    /// A step failed, and restoring the previous shortcut state failed too.
    RollbackFailed { stage: CommitStage, reason: String, rollback: String },
}

pub open spec fn stage_failure_text(stage: CommitStage) -> Seq<char> {
    match stage {
        CommitStage::Activate => "could not activate the new shortcuts"@,
        CommitStage::Persist => "could not save settings"@,
    }
}

/// Human-readable description of a failed commit.
pub open spec fn commit_error_message(error: CommitError) -> Seq<char> {
    match error {
        CommitError::Invalid(error) => "settings are invalid: "@
            + crate::config::validation_message(error),
        CommitError::Restored { stage, reason } => stage_failure_text(stage)
            + "; the previous shortcut state was restored: "@ + reason@,
        CommitError::RollbackFailed { stage, reason, rollback } => stage_failure_text(stage)
            + " ("@ + reason@ + "); restoring the previous shortcut state also failed ("@
            + rollback@ + ")"@,
    }
}

fn stage_failure(stage: CommitStage) -> (text: &'static str)
    ensures
        text@ == stage_failure_text(stage),
{
    match stage {
        CommitStage::Activate => "could not activate the new shortcuts",
        CommitStage::Persist => "could not save settings",
    }
}

impl CommitError {
    /// Human-readable description.
    pub fn message(&self) -> (message: String)
        ensures
            message@ == commit_error_message(*self),
    {
        match self {
            CommitError::Invalid(error) => concatenated("settings are invalid: ", error.message().as_str()),
            CommitError::Restored { stage, reason } => {
                let mut message = concatenated(
                    stage_failure(*stage),
                    "; the previous shortcut state was restored: ",
                );
                append_str(&mut message, reason.as_str());
                message
            },
            CommitError::RollbackFailed { stage, reason, rollback } => {
                let mut message = concatenated(stage_failure(*stage), " (");
                append_str(&mut message, reason.as_str());
                append_str(&mut message, "); restoring the previous shortcut state also failed (");
                append_str(&mut message, rollback.as_str());
                append_str(&mut message, ")");
                message
            },
        }
    }
}

/// The error of a failed commit step, given how the rollback went.
pub fn commit_failure(stage: CommitStage, reason: String, rollback: Result<(), String>) -> (error: CommitError)
    ensures
        match rollback {
            Ok(()) => error == CommitError::Restored { stage, reason },
            Err(rollback) => error == CommitError::RollbackFailed { stage, reason, rollback },
        },
{
    match rollback {
        Ok(()) => CommitError::Restored { stage, reason },
        Err(rollback) => CommitError::RollbackFailed { stage, reason, rollback },
    }
}

/// `call` restores the shortcuts of `previous_config` to the registration
/// state `registered`, and `result` reports the failure of `stage` with
/// `reason` together with how that rollback went.
pub open spec fn rolled_back(
    call: CommitCall,
    previous_config: Config,
    registered: bool,
    stage: CommitStage,
    reason: String,
    result: Result<Config, CommitError>,
) -> bool {
    match call {
        CommitCall::Restore(restored, state, rollback) => restored == previous_config && state
            == registered && result == Err::<Config, CommitError>(failure_of(stage, reason, rollback)),
        _ => false,
    }
}

/// The calls that committing `new_config` over `previous_config` makes on
/// a valid commit, and its result: activate, then persist only after a
/// successful activation, and restore the previous shortcuts to the
/// registration state `registered` exactly when a step failed.
pub open spec fn commit_outcome(
    calls: Seq<CommitCall>,
    previous_config: Config,
    new_config: Config,
    registered: bool,
    result: Result<Config, CommitError>,
) -> bool {
    calls.len() >= 2 && match calls[0] {
        CommitCall::Activate(activated, Err(reason)) => activated == new_config && calls.len() == 2
            && rolled_back(calls[1], previous_config, registered, CommitStage::Activate, reason, result),
        CommitCall::Activate(activated, Ok(_)) => activated == new_config && match calls[1] {
            CommitCall::Persist(persisted, Ok(_)) => persisted == new_config && calls.len() == 2
                && result == Ok::<Config, CommitError>(new_config),
            CommitCall::Persist(persisted, Err(reason)) => persisted == new_config && calls.len() == 3
                && rolled_back(calls[2], previous_config, registered, CommitStage::Persist, reason, result),
            _ => false,
        },
        _ => false,
    }
}

/// The error of a failed commit step, given how the rollback went.
pub open spec fn failure_of(stage: CommitStage, reason: String, rollback: Result<(), String>) -> CommitError {
    match rollback {
        Ok(()) => CommitError::Restored { stage, reason },
        Err(rollback) => CommitError::RollbackFailed { stage, reason, rollback },
    }
}

/// Commits new settings: validates them before touching anything, then
/// activates their shortcuts, then saves them. When a step fails, the
/// shortcuts of `previous_config` are restored to the registration state
/// they had before, and the error says whether that worked.
pub fn commit_settings<B: SettingsCommitBackend>(
    backend: &mut B,
    previous_config: &Config,
    new_config: Config,
) -> (result: Result<Config, CommitError>)
    ensures
        match result {
            Err(CommitError::Invalid(error)) => (validation_outcome(new_config, false, Err(error))
                || validation_outcome(new_config, true, Err(error))) && (B::obeys_commit_spec()
                ==> final(backend).calls() == old(backend).calls()),
            _ => (crate::config::config_valid(new_config, false) || crate::config::config_valid(
                new_config,
                true,
            )) && (B::obeys_commit_spec() ==> final(backend).calls().len() >= old(
                backend,
            ).calls().len() && commit_outcome(
                final(backend).calls().skip(old(backend).calls().len() as int),
                *previous_config,
                new_config,
                old(backend).registration(),
                result,
            )),
        },
{
    match new_config.validate() {
        Ok(()) => {},
        Err(error) => {
            return Err(CommitError::Invalid(error));
        },
    }
    let ghost start = backend.calls();
    let previously_registered = backend.shortcuts_registered();
    let activation = backend.activate_shortcuts(&new_config);
    if let Err(reason) = activation {
        let rollback = backend.restore_shortcuts(previous_config, previously_registered);
        proof {
            if B::obeys_commit_spec() {
                assert(backend.calls().skip(start.len() as int) =~= seq![
                    CommitCall::Activate(new_config, Err::<(), String>(reason)),
                    CommitCall::Restore(*previous_config, previously_registered, rollback),
                ]);
            }
        }
        return Err(commit_failure(CommitStage::Activate, reason, rollback));
    }
    let persistence = backend.persist_settings(&new_config);
    if let Err(reason) = persistence {
        let rollback = backend.restore_shortcuts(previous_config, previously_registered);
        proof {
            if B::obeys_commit_spec() {
                assert(backend.calls().skip(start.len() as int) =~= seq![
                    CommitCall::Activate(new_config, activation),
                    CommitCall::Persist(new_config, Err::<(), String>(reason)),
                    CommitCall::Restore(*previous_config, previously_registered, rollback),
                ]);
            }
        }
        return Err(commit_failure(CommitStage::Persist, reason, rollback));
    }
    proof {
        if B::obeys_commit_spec() {
            assert(backend.calls().skip(start.len() as int) =~= seq![
                CommitCall::Activate(new_config, activation),
                CommitCall::Persist(new_config, persistence),
            ]);
        }
    }
    Ok(new_config)
}

/// Width and height of the tray icon, in pixels.
pub const TRAY_ICON_SIZE: u32 = 32;

/// Channel `channel` (red, green, blue, alpha) of the tray icon's pixel at
/// (`x`, `y`): a blue square holding a white frame, on a transparent ground.
pub open spec fn tray_icon_channel(x: int, y: int, channel: int) -> u8 {
    let frame = 8 <= x < 24 && 9 <= y < 23 && !(11 <= x < 21 && 12 <= y < 20);
    let square = 3 <= x < 29 && 3 <= y < 29;
    if frame {
        255
    } else if square {
        if channel == 0 {
            38
        } else if channel == 1 {
            119
        } else if channel == 2 {
            222
        } else {
            255
        }
    } else {
        0
    }
}

/// The tray icon's RGBA pixels, row by row.
pub fn tray_icon_rgba() -> (rgba: Vec<u8>)
    ensures
        rgba@.len() == 4096,
        forall|x: int, y: int, channel: int|
            0 <= x < 32 && 0 <= y < 32 && 0 <= channel < 4 ==> rgba@[128 * y + 4 * x + channel]
                == #[trigger] tray_icon_channel(x, y, channel),
{
    let mut rgba: Vec<u8> = Vec::new();
    let mut y: u32 = 0;
    while y < TRAY_ICON_SIZE
        invariant
            y <= 32,
            rgba@.len() == 128 * y,
            forall|px: int, py: int, channel: int|
                0 <= px < 32 && 0 <= py < y && 0 <= channel < 4 ==> rgba@[128 * py + 4 * px + channel]
                    == #[trigger] tray_icon_channel(px, py, channel),
        decreases 32 - y,
    {
        let mut x: u32 = 0;
        while x < TRAY_ICON_SIZE
            invariant
                x <= 32,
                y < 32,
                rgba@.len() == 128 * y + 4 * x,
                forall|px: int, py: int, channel: int|
                    0 <= px < 32 && 0 <= py < 32 && (py < y || (py == y && px < x)) && 0 <= channel < 4
                        ==> rgba@[128 * py + 4 * px + channel] == #[trigger] tray_icon_channel(px, py, channel),
            decreases 32 - x,
        {
            let frame = 8 <= x && x < 24 && 9 <= y && y < 23 && !(11 <= x && x < 21 && 12 <= y && y < 20);
            let square = 3 <= x && x < 29 && 3 <= y && y < 29;
            let pixel: [u8; 4] = if frame {
                [255, 255, 255, 255]
            } else if square {
                [38, 119, 222, 255]
            } else {
                [0, 0, 0, 0]
            };
            let ghost before = rgba@;
            rgba.push(pixel[0]);
            rgba.push(pixel[1]);
            rgba.push(pixel[2]);
            rgba.push(pixel[3]);
            proof {
                let here = 128 * y + 4 * x;
                assert(rgba@.len() == here + 4);
                assert forall|px: int, py: int, channel: int|
                    0 <= px < 32 && 0 <= py < 32 && (py < y || (py == y && px < x + 1)) && 0 <= channel < 4
                    implies rgba@[128 * py + 4 * px + channel] == #[trigger] tray_icon_channel(px, py, channel) by {
                    if py == y && px == x {
                        assert(128 * py + 4 * px + channel == here + channel);
                    } else {
                        assert(128 * py + 4 * px + channel < here);
                        assert(rgba@[128 * py + 4 * px + channel] == before[128 * py + 4 * px + channel]);
                    }
                }
            }
            x += 1;
        }
        y += 1;
    }
    rgba
}

} // verus!
