//! Small verified string utilities shared by the settings and export code.
use vstd::prelude::*;
use vstd::string::StrSliceExecFns;

verus! {

/// `std::string::String::push`: appends one character. The contract states
/// what the standard library documents: the character is added at the end.
#[verifier::external_body]
pub(crate) fn push_char(text: &mut String, character: char)
    ensures
        final(text)@ == old(text)@.push(character),
{
    text.push(character);
}

/// Builds an owned string from a sequence of characters.
pub fn string_from_chars(characters: &[char]) -> (text: String)
    ensures
        text@ == characters@,
{
    let mut text = String::new();
    let mut index: usize = 0;
    while index < characters.len()
        invariant
            index <= characters@.len(),
            text@ == characters@.take(index as int),
        decreases characters@.len() - index,
    {
        push_char(&mut text, characters[index]);
        proof {
            assert(characters@.take(index as int).push(characters@[index as int]) =~= characters@.take(
                index as int + 1,
            ));
        }
        index += 1;
    }
    proof {
        assert(characters@.take(characters@.len() as int) =~= characters@);
    }
    text
}

/// The characters of a string.
pub fn chars_of(text: &str) -> (characters: Vec<char>)
    ensures
        characters@ == text@,
{
    let length = text.unicode_len();
    let mut characters: Vec<char> = Vec::new();
    let mut index: usize = 0;
    while index < length
        invariant
            length == text@.len(),
            index <= length,
            characters@ == text@.take(index as int),
        decreases length - index,
    {
        characters.push(text.get_char(index));
        proof {
            assert(text@.take(index as int).push(text@[index as int]) =~= text@.take(index as int + 1));
        }
        index += 1;
    }
    proof {
        assert(text@.take(length as int) =~= text@);
    }
    characters
}

/// Appends a string slice to an owned string.
pub fn append_str(text: &mut String, suffix: &str)
    ensures
        final(text)@ == old(text)@ + suffix@,
{
    let characters = chars_of(suffix);
    let ghost start = text@;
    let mut index: usize = 0;
    while index < characters.len()
        invariant
            characters@ == suffix@,
            index <= characters@.len(),
            text@ == start + characters@.take(index as int),
        decreases characters@.len() - index,
    {
        push_char(text, characters[index]);
        proof {
            assert(characters@.take(index as int).push(characters@[index as int]) =~= characters@.take(
                index as int + 1,
            ));
            assert(start + characters@.take(index as int + 1) =~= (start + characters@.take(
                index as int,
            )).push(characters@[index as int]));
        }
        index += 1;
    }
    proof {
        assert(characters@.take(characters@.len() as int) =~= characters@);
    }
}

/// A string holding `first` followed by `second`.
pub fn concatenated(first: &str, second: &str) -> (text: String)
    ensures
        text@ == first@ + second@,
{
    let mut text = String::new();
    append_str(&mut text, first);
    proof {
        assert(Seq::<char>::empty() + first@ =~= first@);
    }
    append_str(&mut text, second);
    text
}

/// Unicode `White_Space`, the property that `char::is_whitespace` and
/// `str::trim` use.
pub open spec fn is_white_space(c: char) -> bool {
    let v = c as u32;
    ||| 0x09 <= v <= 0x0d
    ||| v == 0x20
    ||| v == 0x85
    ||| v == 0xa0
    ||| v == 0x1680
    ||| 0x2000 <= v <= 0x200a
    ||| v == 0x2028
    ||| v == 0x2029
    ||| v == 0x202f
    ||| v == 0x205f
    ||| v == 0x3000
}

pub fn white_space(c: char) -> (result: bool)
    ensures
        result == is_white_space(c),
{
    let v = c as u32;
    (0x09 <= v && v <= 0x0d) || v == 0x20 || v == 0x85 || v == 0xa0 || v == 0x1680 || (0x2000 <= v
        && v <= 0x200a) || v == 0x2028 || v == 0x2029 || v == 0x202f || v == 0x205f || v == 0x3000
}

/// `text` without leading and trailing white space, as `str::trim` defines it.
pub open spec fn trimmed(text: Seq<char>) -> Seq<char> {
    let start = leading_white_space(text);
    let end = text.len() - trailing_white_space(text);
    if start >= end {
        Seq::empty()
    } else {
        text.subrange(start, end)
    }
}

/// Number of white-space characters at the start of `text`.
pub open spec fn leading_white_space(text: Seq<char>) -> int
    decreases text.len(),
{
    if text.len() == 0 || !is_white_space(text[0]) {
        0
    } else {
        1 + leading_white_space(text.drop_first())
    }
}

/// Number of white-space characters at the end of `text`.
pub open spec fn trailing_white_space(text: Seq<char>) -> int
    decreases text.len(),
{
    if text.len() == 0 || !is_white_space(text.last()) {
        0
    } else {
        1 + trailing_white_space(text.drop_last())
    }
}

proof fn lemma_leading_bounds(text: Seq<char>)
    ensures
        0 <= leading_white_space(text) <= text.len(),
        leading_white_space(text) < text.len() ==> !is_white_space(text[leading_white_space(text)]),
        forall|j: int| 0 <= j < leading_white_space(text) ==> is_white_space(#[trigger] text[j]),
    decreases text.len(),
{
    if text.len() > 0 && is_white_space(text[0]) {
        lemma_leading_bounds(text.drop_first());
        assert forall|j: int| 0 <= j < leading_white_space(text) implies is_white_space(
            #[trigger] text[j],
        ) by {
            if j > 0 {
                assert(text[j] == text.drop_first()[j - 1]);
            }
        }
    }
}

proof fn lemma_trailing_bounds(text: Seq<char>)
    ensures
        0 <= trailing_white_space(text) <= text.len(),
        trailing_white_space(text) < text.len() ==> !is_white_space(
            text[text.len() - 1 - trailing_white_space(text)],
        ),
        forall|j: int|
            text.len() - trailing_white_space(text) <= j < text.len() ==> is_white_space(
                #[trigger] text[j],
            ),
    decreases text.len(),
{
    if text.len() > 0 && is_white_space(text.last()) {
        lemma_trailing_bounds(text.drop_last());
        assert forall|j: int|
            text.len() - trailing_white_space(text) <= j < text.len() implies is_white_space(
            #[trigger] text[j],
        ) by {
            if j < text.len() - 1 {
                assert(text[j] == text.drop_last()[j]);
            }
        }
    }
}

/// Removes leading and trailing Unicode white space.
pub fn trim(text: &str) -> (result: String)
    ensures
        result@ == trimmed(text@),
{
    let characters = chars_of(text);
    let length = characters.len();
    proof {
        lemma_leading_bounds(text@);
        lemma_trailing_bounds(text@);
    }
    let mut start: usize = 0;
    while start < length && white_space(characters[start])
        invariant
            characters@ == text@,
            length == text@.len(),
            start <= leading_white_space(text@),
            0 <= leading_white_space(text@) <= length,
            leading_white_space(text@) < length ==> !is_white_space(
                text@[leading_white_space(text@)],
            ),
            forall|j: int| 0 <= j < leading_white_space(text@) ==> is_white_space(#[trigger] text@[j]),
        decreases length - start,
    {
        start += 1;
    }
    let mut end: usize = length;
    while end > start && white_space(characters[end - 1])
        invariant
            characters@ == text@,
            length == text@.len(),
            start == leading_white_space(text@),
            end <= length,
            end >= start,
            length - end <= trailing_white_space(text@),
            0 <= trailing_white_space(text@) <= length,
            trailing_white_space(text@) < length ==> !is_white_space(
                text@[length - 1 - trailing_white_space(text@)],
            ),
            forall|j: int|
                length - trailing_white_space(text@) <= j < length ==> is_white_space(
                    #[trigger] text@[j],
                ),
            forall|j: int| 0 <= j < leading_white_space(text@) ==> is_white_space(#[trigger] text@[j]),
        decreases end,
    {
        end -= 1;
    }
    let mut kept: Vec<char> = Vec::new();
    let mut index = start;
    while index < end
        invariant
            characters@ == text@,
            start <= index <= end <= length,
            length == text@.len(),
            kept@ == text@.subrange(start as int, index as int),
        decreases end - index,
    {
        kept.push(characters[index]);
        proof {
            assert(text@.subrange(start as int, index as int).push(text@[index as int])
                =~= text@.subrange(start as int, index as int + 1));
        }
        index += 1;
    }
    let result = string_from_chars(kept.as_slice());
    proof {
        if start < end {
            assert(end == length - trailing_white_space(text@));
        } else {
            assert(kept@ =~= Seq::<char>::empty());
            if leading_white_space(text@) < length - trailing_white_space(text@) {
                assert(end == length - trailing_white_space(text@));
            }
        }
    }
    result
}


/// The decimal digit character of `digit`.
pub open spec fn digit_char(digit: int) -> char {
    (('0' as u32) + digit) as char
}

/// The decimal text of `value`, without leading zeros.
pub open spec fn decimal_text(value: nat) -> Seq<char>
    decreases value,
{
    if value < 10 {
        seq![digit_char(value as int)]
    } else {
        decimal_text(value / 10).push(digit_char((value % 10) as int))
    }
}

/// The decimal text of a byte value.
pub fn u8_to_decimal(value: u8) -> (text: String)
    ensures
        text@ == decimal_text(value as nat),
{
    u64_to_decimal(value as u64)
}

/// The decimal text of `value`, as `u64::to_string` writes it.
pub fn u64_to_decimal(value: u64) -> (text: String)
    ensures
        text@ == decimal_text(value as nat),
    decreases value,
{
    if value < 10 {
        let digits = [char_of_digit(value as u8)];
        let text = string_from_chars(&digits);
        proof {
            assert(text@ =~= decimal_text(value as nat));
        }
        text
    } else {
        let mut text = u64_to_decimal(value / 10);
        push_char(&mut text, char_of_digit((value % 10) as u8));
        text
    }
}

/// The decimal text of a signed value: a minus sign before a negative one.
pub open spec fn signed_decimal_text(value: int) -> Seq<char> {
    if value < 0 {
        seq!['-'] + decimal_text((-value) as nat)
    } else {
        decimal_text(value as nat)
    }
}

/// The decimal text of `value`, as `i32::to_string` writes it.
pub fn i32_to_decimal(value: i32) -> (text: String)
    ensures
        text@ == signed_decimal_text(value as int),
{
    if value < 0 {
        let magnitude = u64_to_decimal((0 - (value as i64)) as u64);
        let mut text = String::new();
        push_char(&mut text, '-');
        append_str(&mut text, magnitude.as_str());
        proof {
            assert(text@ =~= seq!['-'] + decimal_text((-(value as int)) as nat));
        }
        text
    } else {
        u64_to_decimal(value as u64)
    }
}

fn char_of_digit(digit: u8) -> (c: char)
    requires
        digit < 10,
    ensures
        c == digit_char(digit as int),
{
    let value: u8 = 0x30 + digit;
    value as char
}

pub open spec fn is_decimal_digit(c: char) -> bool {
    '0' <= c <= '9'
}

/// Value of a run of decimal digits.
pub open spec fn digits_value(digits: Seq<char>) -> nat
    decreases digits.len(),
{
    if digits.len() == 0 {
        0
    } else {
        digits_value(digits.drop_last()) * 10 + (digits.last() as u32 - '0' as u32) as nat
    }
}

/// The part of a number's text after an optional leading `+`.
pub open spec fn unsigned_part(text: Seq<char>) -> Seq<char> {
    if text.len() > 0 && text[0] == '+' {
        text.drop_first()
    } else {
        text
    }
}

/// Every character of `digits` is a decimal digit.
pub open spec fn all_decimal_digits(digits: Seq<char>) -> bool {
    forall|i: int| 0 <= i < digits.len() ==> is_decimal_digit(#[trigger] digits[i])
}

/// `u8::from_str`: an optional leading `+`, then one or more decimal digits
/// whose value is at most 255.
pub open spec fn parse_u8_spec(text: Seq<char>) -> Option<u8> {
    let digits = unsigned_part(text);
    if digits.len() == 0 || !all_decimal_digits(digits) {
        None
    } else if digits_value(digits) > 255 {
        None
    } else {
        Some(digits_value(digits) as u8)
    }
}

/// Parses a byte value as `u8::from_str` does.
pub fn parse_u8(text: &str) -> (value: Option<u8>)
    ensures
        value == parse_u8_spec(text@),
{
    let characters = chars_of(text);
    let length = characters.len();
    let start: usize = if length > 0 && characters[0] == '+' { 1 } else { 0 };
    let ghost digits = unsigned_part(text@);
    if start == length {
        proof {
            assert(digits.len() == 0);
        }
        return None;
    }
    let mut value: u32 = 0;
    let mut index = start;
    let mut overflow = false;
    while index < length
        invariant
            characters@ == text@,
            length == text@.len(),
            start <= index <= length,
            start < length,
            digits == text@.subrange(start as int, length as int),
            digits == unsigned_part(text@),
            forall|i: int| start <= i < index ==> is_decimal_digit(#[trigger] text@[i]),
            !overflow ==> value == digits_value(text@.subrange(start as int, index as int)),
            !overflow ==> value <= 255,
            overflow ==> digits_value(text@.subrange(start as int, index as int)) > 255,
        decreases length - index,
    {
        let c = characters[index];
        if !('0' <= c && c <= '9') {
            proof {
                let k = index - start;
                assert(digits[k] == text@[index as int]);
                assert(!is_decimal_digit(digits[k]));
                assert(digits.len() > 0);
            }
            return None;
        }
        proof {
            let before = text@.subrange(start as int, index as int);
            let after = text@.subrange(start as int, index as int + 1);
            assert(after.drop_last() =~= before);
            assert(after.last() == c);
            lemma_digits_value_monotone(before);
        }
        if !overflow {
            value = value * 10 + (c as u32 - '0' as u32);
            if value > 255 {
                overflow = true;
            }
        }
        index += 1;
    }
    proof {
        assert(text@.subrange(start as int, length as int) == digits);
        assert(all_decimal_digits(digits)) by {
            assert forall|i: int| 0 <= i < digits.len() implies is_decimal_digit(#[trigger] digits[i]) by {
                assert(digits[i] == text@[start + i]);
            }
        }
    }
    if overflow {
        None
    } else {
        Some(value as u8)
    }
}

proof fn lemma_digits_value_monotone(digits: Seq<char>)
    ensures
        digits_value(digits) >= 0,
{
}

proof fn lemma_decimal_text(value: nat)
    ensures
        digits_value(decimal_text(value)) == value,
        decimal_text(value).len() > 0,
        forall|i: int| 0 <= i < decimal_text(value).len() ==> is_decimal_digit(
            #[trigger] decimal_text(value)[i],
        ),
    decreases value,
{
    let text = decimal_text(value);
    let d = (value % 10) as int;
    assert(digit_char(d) as u32 - '0' as u32 == d) by {
        assert(0 <= d < 10);
        assert(((('0' as u32) + d) as char) as u32 == ('0' as u32) + d);
    }
    if value < 10 {
        assert(value % 10 == value);
        assert(text.drop_last() =~= Seq::<char>::empty());
        assert(digits_value(text) == digits_value(text.drop_last()) * 10 + (text.last() as u32 - '0' as u32) as nat);
    } else {
        lemma_decimal_text(value / 10);
        assert(text.drop_last() =~= decimal_text(value / 10));
        assert(digits_value(text) == digits_value(text.drop_last()) * 10 + (text.last() as u32 - '0' as u32) as nat);
        assert(value == (value / 10) * 10 + value % 10);
        assert forall|i: int| 0 <= i < text.len() implies is_decimal_digit(#[trigger] text[i]) by {
            if i < text.len() - 1 {
                assert(text[i] == decimal_text(value / 10)[i]);
            }
        }
    }
}

/// Parsing the decimal text of a byte gives the byte back, and trimming
/// that text leaves it unchanged.
pub proof fn lemma_decimal_round_trip(value: u8)
    ensures
        parse_u8_spec(decimal_text(value as nat)) == Some(value),
        trimmed(decimal_text(value as nat)) == decimal_text(value as nat),
{
    lemma_decimal_text(value as nat);
    let text = decimal_text(value as nat);
    assert(is_decimal_digit(text[0]));
    assert(text[0] != '+');
    assert(unsigned_part(text) == text);
    assert(!is_white_space(text[0]));
    assert(is_decimal_digit(text[text.len() - 1]));
    assert(!is_white_space(text.last()));
    assert(leading_white_space(text) == 0);
    assert(trailing_white_space(text) == 0);
    assert(text.subrange(0, text.len() as int) =~= text);
}

/// A character with ASCII upper-case letters made lower case.
pub open spec fn ascii_lowercase(c: char) -> char {
    if 'A' <= c <= 'Z' {
        ((c as u32) + 32) as char
    } else {
        c
    }
}

/// Text with ASCII upper-case letters made lower case.
pub open spec fn ascii_lowercase_text(text: Seq<char>) -> Seq<char> {
    text.map_values(|c: char| ascii_lowercase(c))
}

/// `str::eq_ignore_ascii_case`: equal up to the case of ASCII letters.
pub fn eq_ignore_ascii_case(first: &str, second: &str) -> (equal: bool)
    ensures
        equal == (ascii_lowercase_text(first@) == ascii_lowercase_text(second@)),
{
    let left = chars_of(first);
    let right = chars_of(second);
    if left.len() != right.len() {
        proof {
            assert(ascii_lowercase_text(first@).len() != ascii_lowercase_text(second@).len());
        }
        return false;
    }
    let mut index: usize = 0;
    while index < left.len()
        invariant
            left@ == first@,
            right@ == second@,
            left@.len() == right@.len(),
            index <= left@.len(),
            forall|i: int| 0 <= i < index ==> ascii_lowercase(#[trigger] first@[i]) == ascii_lowercase(second@[i]),
        decreases left@.len() - index,
    {
        let a = lower_char(left[index]);
        let b = lower_char(right[index]);
        if a != b {
            proof {
                assert(ascii_lowercase_text(first@)[index as int] != ascii_lowercase_text(second@)[index as int]);
            }
            return false;
        }
        index += 1;
    }
    proof {
        assert(ascii_lowercase_text(first@) =~= ascii_lowercase_text(second@));
    }
    true
}

/// ASCII lower case of one character.
pub fn lower_char(c: char) -> (lowered: char)
    ensures
        lowered == ascii_lowercase(c),
{
    if 'A' <= c && c <= 'Z' {
        ((c as u8) + 32) as char
    } else {
        c
    }
}

/// A character with ASCII lower-case letters made upper case.
pub open spec fn ascii_uppercase(c: char) -> char {
    if 'a' <= c <= 'z' {
        ((c as u32) - 32) as char
    } else {
        c
    }
}

/// ASCII upper case of one character.
pub fn upper_char(c: char) -> (raised: char)
    ensures
        raised == ascii_uppercase(c),
{
    if 'a' <= c && c <= 'z' {
        ((c as u8) - 32) as char
    } else {
        c
    }
}

} // verus!
