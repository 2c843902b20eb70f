//! What each line of a SUS document is: a command that a keyword starts, a
//! definition or data line with a header and data, metadata, or nothing.

use vstd::prelude::*;

use crate::sus::{group_value, is_metadata, is_metadata_word, parse_group};
use crate::sus::SusError;
use crate::sus_standard_read::{is_standard_note, is_standard_note_spec, note_test_panics};
use vstd::string::StringSliceAdditionalSpecFns;
use vstd::utf8::{encode_utf8, is_char_boundary};
use crate::text::{
    chars_of, first_word_spec, parse_chars, parse_chars_spec, split_once, split_once_spec, string_of, texts, trim, trim_spec,
    words, words_spec,
};

verus! {

/// The kinds of SUS lines.
#[derive(Clone, Copy, Debug, PartialEq, Eq, Structural)]
pub enum SusLineKind {
    /// A blank line, a comment, or text outside any command.
    Skip,
    Request,
    BpmDefault,
    BaseBpm,
    Hispeed,
    NoSpeed,
    MeasureBase,
    MeasureHs,
    AttributeDefinition,
    Attribute,
    NoAttribute,
    /// A header and its data, separated by a colon.
    Definition,
    /// A metadata command, which the chart does not keep.
    Metadata,
    /// A command that is none of the above.
    Malformed,
}

/// A line of a SUS document, taken apart: its kind; for a command, the text
/// after the `#`; for a definition, its header and its data without spaces.
pub struct SusLine {
    pub kind: SusLineKind,
    pub command: String,
    pub header: String,
    pub data: String,
}

/// `text` begins with `prefix`.
pub open spec fn has_prefix(text: Seq<char>, prefix: Seq<char>) -> bool {
    prefix.len() <= text.len() && text.subrange(0, prefix.len() as int) == prefix
}

/// The text without its ASCII spaces.
pub open spec fn without_spaces(text: Seq<char>) -> Seq<char>
    decreases text.len(),
{
    if text.len() == 0 {
        text
    } else if text.last() == ' ' {
        without_spaces(text.drop_last())
    } else {
        without_spaces(text.drop_last()).push(text.last())
    }
}

/// The command of a line: what follows its `#`, trimmed.
pub open spec fn command_of(line: Seq<char>) -> Seq<char> {
    trim_spec(trim_spec(line).skip(1))
}

/// The kind of a SUS line, from its trimmed text.
pub open spec fn sus_line_kind(line: Seq<char>) -> SusLineKind {
    let text = trim_spec(line);
    let command = command_of(line);
    if text.len() == 0 || text[0] != '#' || has_prefix(text, "#COMMENT"@) {
        SusLineKind::Skip
    } else if has_prefix(command, "REQUEST"@) {
        SusLineKind::Request
    } else if has_prefix(command, "BPM_DEF"@) {
        SusLineKind::BpmDefault
    } else if has_prefix(command, "BASEBPM"@) {
        SusLineKind::BaseBpm
    } else if has_prefix(command, "HISPEED"@) {
        SusLineKind::Hispeed
    } else if command == "NOSPEED"@ {
        SusLineKind::NoSpeed
    } else if has_prefix(command, "MEASUREBS"@) {
        SusLineKind::MeasureBase
    } else if has_prefix(command, "MEASUREHS"@) {
        SusLineKind::MeasureHs
    } else if has_prefix(command, "ATR"@) {
        SusLineKind::AttributeDefinition
    } else if has_prefix(command, "ATTRIBUTE"@) {
        SusLineKind::Attribute
    } else if command == "NOATTRIBUTE"@ {
        SusLineKind::NoAttribute
    } else if split_once_spec(command, ':') is Some {
        SusLineKind::Definition
    } else if first_word_spec(command) matches Some(word) && is_metadata_word(word) {
        SusLineKind::Metadata
    } else {
        SusLineKind::Malformed
    }
}

/// Whether `text` begins with `prefix`.
fn starts_with(text: &[char], prefix: &str) -> (starts: bool)
    ensures
        starts == has_prefix(text@, prefix@),
{
    let expected = chars_of(prefix);
    if expected.len() > text.len() {
        return false;
    }
    let mut i: usize = 0;
    while i < expected.len()
        invariant
            expected@ == prefix@,
            expected@.len() <= text@.len(),
            i <= expected@.len(),
            text@.subrange(0, i as int) == expected@.subrange(0, i as int),
        decreases expected@.len() - i,
    {
        if text[i] != expected[i] {
            proof {
                assert(text@.subrange(0, expected@.len() as int)[i as int] != expected@[i as int]);
            }
            return false;
        }
        i += 1;
        proof {
            assert(text@.subrange(0, i as int) =~= expected@.subrange(0, i as int));
        }
    }
    proof {
        assert(expected@.subrange(0, i as int) =~= expected@);
    }
    true
}

/// Whether `text` is exactly `expected`.
fn is_text(text: &[char], expected: &str) -> (equal: bool)
    ensures
        equal == (text@ == expected@),
{
    let starts = starts_with(text, expected);
    let expected_len = chars_of(expected).len();
    proof {
        assert(text@.subrange(0, text@.len() as int) =~= text@);
        if starts && text@.len() == expected_len {
            assert(text@.subrange(0, expected_len as int) =~= text@);
        }
    }
    starts && text.len() == expected_len
}

/// The characters without their ASCII spaces.
fn remove_spaces(text: &[char]) -> (kept: Vec<char>)
    ensures
        kept@ == without_spaces(text@),
{
    let mut kept: Vec<char> = Vec::new();
    let mut i: usize = 0;
    while i < text.len()
        invariant
            i <= text@.len(),
            kept@ == without_spaces(text@.take(i as int)),
        decreases text@.len() - i,
    {
        proof {
            assert(text@.take(i + 1).drop_last() =~= text@.take(i as int));
            assert(text@.take(i + 1).last() == text@[i as int]);
        }
        if text[i] != ' ' {
            kept.push(text[i]);
        }
        i += 1;
    }
    proof {
        assert(text@.take(i as int) =~= text@);
    }
    kept
}

/// Takes a line of a SUS document apart: its kind, the command of a keyword
/// command, the trimmed header and the data without spaces of a definition.
pub fn sus_line(line: &str) -> (parts: SusLine)
    ensures
        parts.kind == sus_line_kind(line@),
        parts.kind != SusLineKind::Skip ==> parts.command@ == command_of(line@),
        parts.kind == SusLineKind::Definition ==> ({
            let (header, data) = split_once_spec(command_of(line@), ':')->0;
            &&& parts.header@ == trim_spec(header)
            &&& parts.data@ == without_spaces(trim_spec(data))
        }),
{
    let chars = chars_of(line);
    let text = trim(chars.as_slice());
    let empty = SusLine {
        kind: SusLineKind::Skip,
        command: String::new(),
        header: String::new(),
        data: String::new(),
    };
    if text.len() == 0 || text[0] != '#' || starts_with(text.as_slice(), "#COMMENT") {
        return empty;
    }
    let mut rest: Vec<char> = Vec::new();
    let mut i: usize = 1;
    while i < text.len()
        invariant
            1 <= i <= text@.len(),
            rest@ == text@.subrange(1, i as int),
        decreases text@.len() - i,
    {
        rest.push(text[i]);
        i += 1;
        proof {
            assert(rest@ =~= text@.subrange(1, i as int));
        }
    }
    proof {
        assert(text@.skip(1) =~= text@.subrange(1, text@.len() as int));
    }
    let command_chars = trim(rest.as_slice());
    let command = string_of(command_chars.as_slice());
    let c = command_chars.as_slice();
    let kind = if starts_with(c, "REQUEST") {
        SusLineKind::Request
    } else if starts_with(c, "BPM_DEF") {
        SusLineKind::BpmDefault
    } else if starts_with(c, "BASEBPM") {
        SusLineKind::BaseBpm
    } else if starts_with(c, "HISPEED") {
        SusLineKind::Hispeed
    } else if is_text(c, "NOSPEED") {
        SusLineKind::NoSpeed
    } else if starts_with(c, "MEASUREBS") {
        SusLineKind::MeasureBase
    } else if starts_with(c, "MEASUREHS") {
        SusLineKind::MeasureHs
    } else if starts_with(c, "ATR") {
        SusLineKind::AttributeDefinition
    } else if starts_with(c, "ATTRIBUTE") {
        SusLineKind::Attribute
    } else if is_text(c, "NOATTRIBUTE") {
        SusLineKind::NoAttribute
    } else {
        match split_once(c, ':') {
            Some((header, data)) => {
                let header = string_of(trim(header.as_slice()).as_slice());
                let data = string_of(remove_spaces(trim(data.as_slice()).as_slice()).as_slice());
                return SusLine { kind: SusLineKind::Definition, command, header, data };
            },
            None => {
                if is_metadata(command.as_str()) {
                    SusLineKind::Metadata
                } else {
                    SusLineKind::Malformed
                }
            },
        }
    };
    SusLine { kind, command, header: String::new(), data: String::new() }
}

/// What a `REQUEST` command asks for.
#[derive(Clone, Copy, Debug, PartialEq, Eq, Structural)]
pub enum SusRequest {
    /// Whether notes are drawn by their priority attribute.
    Priority(bool),
    /// The ticks per beat of the data lines that follow.
    TicksPerBeat(u64),
}

/// The text with every leading copy of `prefix` removed.
pub open spec fn strip_repeated(text: Seq<char>, prefix: Seq<char>) -> Seq<char>
    decreases text.len(),
{
    if prefix.len() > 0 && has_prefix(text, prefix) {
        strip_repeated(text.skip(prefix.len() as int), prefix)
    } else {
        text
    }
}

/// The text without its leading double quotes.
pub open spec fn strip_leading_quotes(text: Seq<char>) -> Seq<char>
    decreases text.len(),
{
    if text.len() > 0 && text[0] == '"' {
        strip_leading_quotes(text.drop_first())
    } else {
        text
    }
}

/// The text without its trailing double quotes.
pub open spec fn strip_trailing_quotes(text: Seq<char>) -> Seq<char>
    decreases text.len(),
{
    if text.len() > 0 && text.last() == '"' {
        strip_trailing_quotes(text.drop_last())
    } else {
        text
    }
}

/// The words of a `REQUEST` command: what follows the keyword, trimmed and
/// unquoted, split at white space.
pub open spec fn request_words(command: Seq<char>) -> Seq<Seq<char>> {
    words_spec(strip_trailing_quotes(strip_leading_quotes(trim_spec(strip_repeated(command, "REQUEST"@)))))
}

/// How a `REQUEST` command is answered: what it asks for, the word that
/// holds an invalid value, or no answer for a request that is not supported.
pub enum RequestOutcome {
    Asks(SusRequest),
    InvalidValue(Seq<char>),
    Unsupported,
}

/// The answer to a `REQUEST` command.
pub open spec fn request_outcome(command: Seq<char>) -> RequestOutcome {
    let words = request_words(command);
    if words.len() == 2 && words[0] == "enable_priority"@ {
        if words[1] == "0"@ || words[1] == "false"@ {
            RequestOutcome::Asks(SusRequest::Priority(false))
        } else if words[1] == "1"@ || words[1] == "true"@ {
            RequestOutcome::Asks(SusRequest::Priority(true))
        } else {
            RequestOutcome::InvalidValue(words[1])
        }
    } else if words.len() != 2 || words[0] != "ticks_per_beat"@ {
        RequestOutcome::Unsupported
    } else {
        match parse_chars_spec(words[1], 10, u64::MAX as nat) {
            Some(t) => if t > 0 {
                RequestOutcome::Asks(SusRequest::TicksPerBeat(t as u64))
            } else {
                RequestOutcome::InvalidValue(words[1])
            },
            None => RequestOutcome::InvalidValue(words[1]),
        }
    }
}

/// The characters with every leading copy of `prefix` removed.
fn remove_repeated(text: &[char], prefix: &str) -> (rest: Vec<char>)
    ensures
        rest@ == strip_repeated(text@, prefix@),
{
    let p = chars_of(prefix);
    let mut start: usize = 0;
    if p.len() == 0 {
        proof {
            assert(text@.subrange(0, text@.len() as int) =~= text@);
        }
        return slice_from(text, 0);
    }
    proof {
        assert(text@.skip(0) =~= text@);
    }
    while start < text.len() && starts_with(slice_from(text, start).as_slice(), prefix)
        invariant
            p@ == prefix@,
            p@.len() > 0,
            start <= text@.len(),
            strip_repeated(text@.skip(start as int), prefix@) == strip_repeated(text@, prefix@),
        decreases text@.len() - start,
    {
        proof {
            assert(text@.skip(start as int).skip(p@.len() as int) =~= text@.skip(start + p@.len()));
            assert(start + p@.len() <= text@.len());
        }
        start = start + p.len();
    }
    let rest = slice_from(text, start);
    proof {
        if start >= text.len() {
            assert(text@.skip(start as int) =~= Seq::<char>::empty());
        }
    }
    rest
}

/// The characters from index `start` on.
fn slice_from(text: &[char], start: usize) -> (rest: Vec<char>)
    requires
        start <= text@.len(),
    ensures
        rest@ == text@.skip(start as int),
{
    let mut rest: Vec<char> = Vec::new();
    let mut i: usize = start;
    while i < text.len()
        invariant
            start <= i <= text@.len(),
            rest@ == text@.subrange(start as int, i as int),
        decreases text@.len() - i,
    {
        rest.push(text[i]);
        i += 1;
        proof {
            assert(rest@ =~= text@.subrange(start as int, i as int));
        }
    }
    proof {
        assert(text@.skip(start as int) =~= text@.subrange(start as int, i as int));
    }
    rest
}

/// The characters without leading and trailing double quotes.
fn remove_quotes(text: &[char]) -> (rest: Vec<char>)
    ensures
        rest@ == strip_trailing_quotes(strip_leading_quotes(text@)),
{
    let mut start: usize = 0;
    proof {
        assert(text@.skip(0) =~= text@);
    }
    while start < text.len() && text[start] == '"'
        invariant
            start <= text@.len(),
            strip_leading_quotes(text@.skip(start as int)) == strip_leading_quotes(text@),
        decreases text@.len() - start,
    {
        proof {
            assert(text@.skip(start as int).drop_first() =~= text@.skip(start + 1));
        }
        start += 1;
    }
    let ghost lead = text@.skip(start as int);
    assert(strip_leading_quotes(lead) == lead);
    let mut end: usize = text.len();
    proof {
        assert(text@.subrange(start as int, end as int) =~= lead);
    }
    while end > start && text[end - 1] == '"'
        invariant
            start <= end <= text@.len(),
            lead == text@.skip(start as int),
            strip_trailing_quotes(text@.subrange(start as int, end as int)) == strip_trailing_quotes(lead),
        decreases end,
    {
        proof {
            assert(text@.subrange(start as int, end as int).drop_last() =~= text@.subrange(start as int, end - 1));
        }
        end -= 1;
    }
    let mut rest: Vec<char> = Vec::new();
    let mut i: usize = start;
    while i < end
        invariant
            start <= i <= end <= text@.len(),
            rest@ == text@.subrange(start as int, i as int),
        decreases end - i,
    {
        rest.push(text[i]);
        i += 1;
        proof {
            assert(rest@ =~= text@.subrange(start as int, i as int));
        }
    }
    rest
}

/// Reads a `REQUEST` command: `enable_priority` with `0`, `1`, `false` or
/// `true`, or `ticks_per_beat` with a positive count. Another value is
/// invalid on `line`; another request is not supported.
pub fn parse_request(line: usize, command: &str) -> (result: Result<SusRequest, SusError>)
    ensures
        match request_outcome(command@) {
            RequestOutcome::Asks(request) => result == Ok::<SusRequest, SusError>(request),
            RequestOutcome::InvalidValue(value) => result matches Err(SusError::InvalidValue { line: l, value: v })
                && l == line && v@ == value,
            RequestOutcome::Unsupported => result matches Err(SusError::UnsupportedCommand { line: l, command: c })
                && l == line && c@ == command@,
        },
{
    let chars = chars_of(command);
    let stripped = remove_repeated(chars.as_slice(), "REQUEST");
    let trimmed = trim(stripped.as_slice());
    let unquoted = remove_quotes(trimmed.as_slice());
    let text = string_of(unquoted.as_slice());
    let fields = words(text.as_str());
    proof {
        assert(texts(fields@) == request_words(command@));
        assert(texts(fields@).len() == fields@.len());
    }
    if fields.len() == 2 && crate::text::text_is(fields[0].as_str(), "enable_priority") {
        proof {
            assert(texts(fields@)[0] == fields@[0]@);
            assert(texts(fields@)[1] == fields@[1]@);
        }
        let value = fields[1].as_str();
        if crate::text::text_is(value, "0") || crate::text::text_is(value, "false") {
            return Ok(SusRequest::Priority(false));
        }
        if crate::text::text_is(value, "1") || crate::text::text_is(value, "true") {
            return Ok(SusRequest::Priority(true));
        }
        return Err(SusError::InvalidValue { line, value: string_of(chars_of(value).as_slice()) });
    }
    proof {
        if fields@.len() == 2 {
            assert(texts(fields@)[0] == fields@[0]@);
        }
    }
    if fields.len() != 2 || !crate::text::text_is(fields[0].as_str(), "ticks_per_beat") {
        return Err(SusError::UnsupportedCommand { line, command: string_of(chars.as_slice()) });
    }
    proof {
        assert(texts(fields@)[1] == fields@[1]@);
    }
    let value = chars_of(fields[1].as_str());
    match parse_chars(value.as_slice(), 10, u64::MAX) {
        Some(t) => if t > 0 {
            Ok(SusRequest::TicksPerBeat(t))
        } else {
            Err(SusError::InvalidValue { line, value: string_of(value.as_slice()) })
        },
        None => Err(SusError::InvalidValue { line, value: string_of(value.as_slice()) }),
    }
}

/// The value of a `BPM_DEF` command: what follows the keyword, repeated
/// keywords included, trimmed and without its double quotes.
pub open spec fn bpm_default_text(command: Seq<char>) -> Seq<char> {
    strip_trailing_quotes(strip_leading_quotes(trim_spec(strip_repeated(command, "BPM_DEF"@))))
}

/// The value text of a `BPM_DEF` command.
pub fn bpm_default_value(command: &str) -> (value: String)
    ensures
        value@ == bpm_default_text(command@),
{
    let chars = chars_of(command);
    let stripped = remove_repeated(chars.as_slice(), "BPM_DEF");
    let trimmed = trim(stripped.as_slice());
    let unquoted = remove_quotes(trimmed.as_slice());
    string_of(unquoted.as_slice())
}

/// The second white-space separated word of a command, which the keyword
/// commands take as their value; a command without one is malformed.
pub fn second_word(line: usize, command: &str) -> (result: Result<String, SusError>)
    ensures
        words_spec(command@).len() >= 2 ==> (result matches Ok(word) && word@ == words_spec(command@)[1]),
        words_spec(command@).len() < 2 ==> result == Err::<String, SusError>(SusError::MalformedCommand { line }),
{
    let fields = words(command);
    if fields.len() < 2 {
        return Err(SusError::MalformedCommand { line });
    }
    proof {
        assert(texts(fields@)[1] == fields@[1]@);
    }
    Ok(fields[1].clone())
}

/// The name of the attribute set an `ATTRIBUTE` command switches to: its
/// only word after the keyword; any other number of words is malformed.
pub fn attribute_name(line: usize, command: &str) -> (result: Result<String, SusError>)
    ensures
        words_spec(command@).len() == 2 ==> (result matches Ok(word) && word@ == words_spec(command@)[1]),
        words_spec(command@).len() != 2 ==> result == Err::<String, SusError>(SusError::MalformedCommand { line }),
{
    let fields = words(command);
    if fields.len() != 2 {
        return Err(SusError::MalformedCommand { line });
    }
    proof {
        assert(texts(fields@)[1] == fields@[1]@);
    }
    Ok(fields[1].clone())
}

/// The parts of an attribute definition `ATRxx: value`: the name after
/// `ATR` in a header of five bytes, and the trimmed value.
pub open spec fn attribute_definition_spec(command: Seq<char>) -> Option<(Seq<char>, Seq<char>)> {
    match split_once_spec(command, ':') {
        None => None,
        Some((header, value)) => if encode_utf8(header).len() == 5 && has_prefix(header, "ATR"@) {
            Some((header.skip(3), trim_spec(value)))
        } else {
            None
        },
    }
}

/// Takes an attribute definition apart: the set's name and its value; a
/// definition of another shape is malformed.
pub fn attribute_definition(line: usize, command: &str) -> (result: Result<(String, String), SusError>)
    ensures
        match attribute_definition_spec(command@) {
            Some((name, value)) => result matches Ok((n, v)) && n@ == name && v@ == value,
            None => result == Err::<(String, String), SusError>(SusError::MalformedCommand { line }),
        },
{
    let chars = chars_of(command);
    let (header, value) = match split_once(chars.as_slice(), ':') {
        Some(parts) => parts,
        None => return Err(SusError::MalformedCommand { line }),
    };
    let header_text = string_of(header.as_slice());
    let header_str = header_text.as_str();
    let header_bytes = header_str.as_bytes().len();
    proof {
        assert(header_str@ == header@);
    }
    proof {
        reveal_strlit("ATR");
    }
    if header_bytes != 5 || !starts_with(header.as_slice(), "ATR") {
        return Err(SusError::MalformedCommand { line });
    }
    let name = string_of(slice_from(header.as_slice(), 3).as_slice());
    let trimmed = trim(value.as_slice());
    Ok((name, string_of(trimmed.as_slice())))
}

/// Where a definition line goes, by its header.
#[derive(Debug, PartialEq, Eq)]
pub enum DefinitionKind {
    /// A tempo definition under the name given.
    Tempo(String),
    /// The speed changes of the speed group given.
    SpeedGroup(u32),
    /// A note line of a standard SUS document.
    StandardNote,
    /// A data line of notes in a measure.
    Data,
    /// A definition that the chart does not keep.
    Ignored,
}

/// The header's first three characters are decimal digits.
pub open spec fn data_header(header: Seq<char>) -> bool {
    &&& encode_utf8(header).len() >= 3
    &&& header.len() >= 3
    &&& forall|i: int| 0 <= i < 3 ==> '0' <= #[trigger] header[i] <= '9'
}

/// Telling a definition apart slices its header's first three bytes, or its
/// data's first two: it cannot where they do not end on a character boundary.
pub open spec fn definition_test_panics(header: Seq<char>, data: Seq<char>) -> bool {
    !has_prefix(header, "BPM"@) && !has_prefix(header, "TIL"@) && (note_test_panics(header, data) || (
    !is_standard_note_spec(header, data) && encode_utf8(header).len() >= 3 && !is_char_boundary(
        encode_utf8(header),
        3,
    )))
}

/// Tells a definition line apart by its header: `BPMxx` with data defines a
/// tempo and `TILxx` a speed group's changes, where the header has five
/// bytes (else the line is malformed); then a standard note line, then a
/// data line, whose header starts with three digits; anything else is kept
/// by nobody.
pub fn definition_kind(line: usize, header: &str, data: &str) -> (result: Result<DefinitionKind, SusError>)
    requires
        !definition_test_panics(header@, data@),
    ensures
        has_prefix(header@, "BPM"@) ==> if encode_utf8(header@).len() != 5 || encode_utf8(data@).len() == 0 {
            result == Err::<DefinitionKind, SusError>(SusError::MalformedCommand { line })
        } else {
            result matches Ok(DefinitionKind::Tempo(name)) && name@ == header@.skip(3)
        },
        !has_prefix(header@, "BPM"@) && has_prefix(header@, "TIL"@) ==> if encode_utf8(header@).len() != 5
            || encode_utf8(header@.skip(3)).len() != 2 {
            result == Err::<DefinitionKind, SusError>(SusError::MalformedCommand { line })
        } else {
            match group_value(encode_utf8(header@.skip(3))) {
                Some(g) => result == Ok::<DefinitionKind, SusError>(DefinitionKind::SpeedGroup(g as u32)),
                None => result matches Err(SusError::InvalidValue { line: l, .. }) && l == line,
            }
        },
        !has_prefix(header@, "BPM"@) && !has_prefix(header@, "TIL"@) ==> result == Ok::<DefinitionKind, SusError>(
            if is_standard_note_spec(header@, data@) {
                DefinitionKind::StandardNote
            } else if data_header(header@) {
                DefinitionKind::Data
            } else {
                DefinitionKind::Ignored
            },
        ),
{
    let header_chars = chars_of(header);
    let header_bytes = header.as_bytes().len();
    let data_bytes = data.as_bytes().len();
    proof {
        reveal_strlit("BPM");
        reveal_strlit("TIL");
        assert(header_bytes == encode_utf8(header@).len());
        assert(data.spec_bytes() == encode_utf8(data@));
    }
    if starts_with(header_chars.as_slice(), "BPM") {
        if header_bytes != 5 || data_bytes == 0 {
            return Err(SusError::MalformedCommand { line });
        }
        let name = string_of(slice_from(header_chars.as_slice(), 3).as_slice());
        return Ok(DefinitionKind::Tempo(name));
    }
    if starts_with(header_chars.as_slice(), "TIL") {
        if header_bytes != 5 {
            return Err(SusError::MalformedCommand { line });
        }
        let name = string_of(slice_from(header_chars.as_slice(), 3).as_slice());
        let group = parse_group(line, name.as_str())?;
        return Ok(DefinitionKind::SpeedGroup(group));
    }
    if is_standard_note(header, data) {
        return Ok(DefinitionKind::StandardNote);
    }
    if header_bytes >= 3 && header_chars.len() >= 3 {
        let digits = '0' <= header_chars[0] && header_chars[0] <= '9' && '0' <= header_chars[1] && header_chars[1]
            <= '9' && '0' <= header_chars[2] && header_chars[2] <= '9';
        if digits {
            return Ok(DefinitionKind::Data);
        }
    }
    Ok(DefinitionKind::Ignored)
}

} // verus!
