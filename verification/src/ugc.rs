//! The UGC chart format: its errors, codes, header values and positions.

use vstd::prelude::*;
use vstd::string::{StringExecFns, StringSliceAdditionalSpecFns};

use crate::error::ChartError;
use crate::note::{valid_slider, AirColor, AirCrushColor, AirDirection, ExDirection, Lane, SlidePointKind};
use crate::position::{sum, Position};
use crate::text::{
    ascii_chars, chars_of, digit_byte, digit_char, digit_value, digits_of, line_prefix, line_text,
    numeral_value, at_most, parse_unsigned, parse_unsigned_spec, push_quoted, quoted, split_once,
    split_once_spec, string_of, text_is, texts, trim, trim_spec, words, words_spec,
};
use crate::timeline::MeasureTimeline;

verus! {

/// Why a UGC document could not be read or written.
#[derive(Debug, PartialEq)]
pub enum UgcError {
    MalformedRecord { line: usize },
    InvalidValue { line: usize, value: String },
    UnsupportedRecord { line: usize, record: String },
    Chart { line: usize, source: ChartError },
    MissingFollower { line: usize },
    UnsupportedNote { note: String },
    UnrepresentablePosition,
}

impl UgcError {
    /// The sentence that describes the error.
    pub open spec fn text(&self) -> Seq<char> {
        match self {
            UgcError::MalformedRecord { line } => line_text(*line as nat) + "malformed record"@,
            UgcError::InvalidValue { line, value } => line_text(*line as nat) + "invalid value "@ + quoted(value@),
            UgcError::UnsupportedRecord { line, record } => line_text(*line as nat) + "unsupported record "@ + quoted(record@),
            UgcError::Chart { line, source } => line_text(*line as nat) + source.text(),
            UgcError::MissingFollower { line } => line_text(*line as nat) + "a note is missing a follower line"@,
            UgcError::UnsupportedNote { note } => "cannot represent "@ + quoted(note@) + " in the supported UGC output"@,
            UgcError::UnrepresentablePosition => "position cannot be represented at the UGC resolution"@,
        }
    }

    /// The sentence that describes the error.
    pub fn message(&self) -> (text: String)
        ensures
            text@ == self.text(),
    {
        match self {
            UgcError::MalformedRecord { line } => {
                let mut text = line_prefix(*line);
                text.append("malformed record");
                text
            },
            UgcError::InvalidValue { line, value } => {
                let mut text = line_prefix(*line);
                text.append("invalid value ");
                push_quoted(&mut text, value.as_str());
                text
            },
            UgcError::UnsupportedRecord { line, record } => {
                let mut text = line_prefix(*line);
                text.append("unsupported record ");
                push_quoted(&mut text, record.as_str());
                text
            },
            UgcError::Chart { line, source } => {
                let mut text = line_prefix(*line);
                text.append(source.message());
                text
            },
            UgcError::MissingFollower { line } => {
                let mut text = line_prefix(*line);
                text.append("a note is missing a follower line");
                text
            },
            UgcError::UnsupportedNote { note } => {
                let mut text = String::from_str("cannot represent ");
                push_quoted(&mut text, note.as_str());
                text.append(" in the supported UGC output");
                proof {
                    assert(text@ =~= "cannot represent "@ + quoted(note@) + " in the supported UGC output"@);
                }
                text
            },
            UgcError::UnrepresentablePosition => String::from_str(
                "position cannot be represented at the UGC resolution",
            ),
        }
    }
}

/// The error for an invalid value on a line.
pub fn invalid_value(line: usize, value: &str) -> (error: UgcError)
    ensures
        error matches UgcError::InvalidValue { line: l, value: v } && l == line && v@ == value@,
{
    UgcError::InvalidValue { line, value: value.to_owned() }
}

/// The error for chart information that UGC cannot represent.
pub fn unsupported_note(note: &str) -> (error: UgcError)
    ensures
        error matches UgcError::UnsupportedNote { note: n } && n@ == note@,
{
    UgcError::UnsupportedNote { note: note.to_owned() }
}

/// Errors that only mean some chart information cannot be written.
pub open spec fn is_loss_spec(error: &UgcError) -> bool {
    error is UnsupportedNote || error is UnrepresentablePosition
}

/// Whether the error only means that some chart information cannot be written.
pub fn is_loss(error: &UgcError) -> (loss: bool)
    ensures
        loss == is_loss_spec(error),
{
    match error {
        UgcError::UnsupportedNote { .. } | UgcError::UnrepresentablePosition => true,
        _ => false,
    }
}

/// The Ex direction a UGC direction code names.
pub open spec fn ex_direction_code(value: Seq<char>) -> Option<ExDirection> {
    if value == "U"@ {
        Some(ExDirection::Up)
    } else if value == "D"@ {
        Some(ExDirection::Down)
    } else if value == "C"@ {
        Some(ExDirection::Center)
    } else if value == "A"@ {
        Some(ExDirection::All)
    } else if value == "W"@ {
        Some(ExDirection::Wide)
    } else if value == "L"@ {
        Some(ExDirection::Left)
    } else if value == "R"@ {
        Some(ExDirection::Right)
    } else if value == "I"@ {
        Some(ExDirection::Inward)
    } else {
        None
    }
}

/// Reads a UGC Ex direction code.
pub fn parse_ex_direction(line: usize, value: &str) -> (result: Result<ExDirection, UgcError>)
    ensures
        match ex_direction_code(value@) {
            Some(found) => result == Ok::<ExDirection, UgcError>(found),
            None => result matches Err(UgcError::InvalidValue { line: l, value: v }) && l == line && v@ == value@,
        },
{
    if text_is(value, "U") {
        Ok(ExDirection::Up)
    } else if text_is(value, "D") {
        Ok(ExDirection::Down)
    } else if text_is(value, "C") {
        Ok(ExDirection::Center)
    } else if text_is(value, "A") {
        Ok(ExDirection::All)
    } else if text_is(value, "W") {
        Ok(ExDirection::Wide)
    } else if text_is(value, "L") {
        Ok(ExDirection::Left)
    } else if text_is(value, "R") {
        Ok(ExDirection::Right)
    } else if text_is(value, "I") {
        Ok(ExDirection::Inward)
    } else {
        Err(invalid_value(line, value))
    }
}

/// The AIR direction a UGC direction code names.
pub open spec fn air_direction_code(value: Seq<char>) -> Option<AirDirection> {
    if value == "UC"@ {
        Some(AirDirection::Up)
    } else if value == "UL"@ {
        Some(AirDirection::UpperLeft)
    } else if value == "UR"@ {
        Some(AirDirection::UpperRight)
    } else if value == "DC"@ {
        Some(AirDirection::Down)
    } else if value == "DL"@ {
        Some(AirDirection::LowerLeft)
    } else if value == "DR"@ {
        Some(AirDirection::LowerRight)
    } else {
        None
    }
}

/// Reads a UGC AIR direction code.
pub fn parse_air_direction(line: usize, value: &str) -> (result: Result<AirDirection, UgcError>)
    ensures
        match air_direction_code(value@) {
            Some(found) => result == Ok::<AirDirection, UgcError>(found),
            None => result matches Err(UgcError::InvalidValue { line: l, value: v }) && l == line && v@ == value@,
        },
{
    if text_is(value, "UC") {
        Ok(AirDirection::Up)
    } else if text_is(value, "UL") {
        Ok(AirDirection::UpperLeft)
    } else if text_is(value, "UR") {
        Ok(AirDirection::UpperRight)
    } else if text_is(value, "DC") {
        Ok(AirDirection::Down)
    } else if text_is(value, "DL") {
        Ok(AirDirection::LowerLeft)
    } else if text_is(value, "DR") {
        Ok(AirDirection::LowerRight)
    } else {
        Err(invalid_value(line, value))
    }
}

/// The AIR Crush color a UGC color code names.
pub open spec fn air_crush_color_code(value: Seq<char>) -> Option<AirCrushColor> {
    if value == "0"@ {
        Some(AirCrushColor::Normal)
    } else if value == "Z"@ {
        Some(AirCrushColor::Transparent)
    } else if value == "1"@ {
        Some(AirCrushColor::Red)
    } else if value == "2"@ {
        Some(AirCrushColor::Orange)
    } else if value == "3"@ {
        Some(AirCrushColor::Yellow)
    } else if value == "4"@ {
        Some(AirCrushColor::Lime)
    } else if value == "5"@ {
        Some(AirCrushColor::Green)
    } else if value == "6"@ {
        Some(AirCrushColor::Aqua)
    } else if value == "7"@ {
        Some(AirCrushColor::Cyan)
    } else if value == "8"@ {
        Some(AirCrushColor::DarkBlue)
    } else if value == "9"@ {
        Some(AirCrushColor::Blue)
    } else if value == "A"@ {
        Some(AirCrushColor::Violet)
    } else if value == "Y"@ {
        Some(AirCrushColor::Purple)
    } else if value == "B"@ {
        Some(AirCrushColor::Pink)
    } else if value == "C"@ {
        Some(AirCrushColor::Gray)
    } else if value == "D"@ {
        Some(AirCrushColor::Black)
    } else {
        None
    }
}

/// Reads a UGC AIR Crush color code.
pub fn parse_air_crush_color(line: usize, value: &str) -> (result: Result<AirCrushColor, UgcError>)
    ensures
        match air_crush_color_code(value@) {
            Some(found) => result == Ok::<AirCrushColor, UgcError>(found),
            None => result matches Err(UgcError::InvalidValue { line: l, value: v }) && l == line && v@ == value@,
        },
{
    if text_is(value, "0") {
        Ok(AirCrushColor::Normal)
    } else if text_is(value, "Z") {
        Ok(AirCrushColor::Transparent)
    } else if text_is(value, "1") {
        Ok(AirCrushColor::Red)
    } else if text_is(value, "2") {
        Ok(AirCrushColor::Orange)
    } else if text_is(value, "3") {
        Ok(AirCrushColor::Yellow)
    } else if text_is(value, "4") {
        Ok(AirCrushColor::Lime)
    } else if text_is(value, "5") {
        Ok(AirCrushColor::Green)
    } else if text_is(value, "6") {
        Ok(AirCrushColor::Aqua)
    } else if text_is(value, "7") {
        Ok(AirCrushColor::Cyan)
    } else if text_is(value, "8") {
        Ok(AirCrushColor::DarkBlue)
    } else if text_is(value, "9") {
        Ok(AirCrushColor::Blue)
    } else if text_is(value, "A") {
        Ok(AirCrushColor::Violet)
    } else if text_is(value, "Y") {
        Ok(AirCrushColor::Purple)
    } else if text_is(value, "B") {
        Ok(AirCrushColor::Pink)
    } else if text_is(value, "C") {
        Ok(AirCrushColor::Gray)
    } else if text_is(value, "D") {
        Ok(AirCrushColor::Black)
    } else {
        Err(invalid_value(line, value))
    }
}

/// The UGC code of an Ex direction, if UGC has one.
pub open spec fn ex_direction_text(value: ExDirection) -> Option<Seq<char>> {
    match value {
        ExDirection::Up => Some("U"@),
        ExDirection::Down => Some("D"@),
        ExDirection::Center => Some("C"@),
        ExDirection::All => Some("A"@),
        ExDirection::Wide => Some("W"@),
        ExDirection::Left => Some("L"@),
        ExDirection::Right => Some("R"@),
        ExDirection::Inward => Some("I"@),
        ExDirection::UpperLeft | ExDirection::UpperRight | ExDirection::LowerLeft | ExDirection::LowerRight => None,
    }
}

/// Writes an Ex direction as its UGC code; UGC has no diagonal directions.
pub fn encode_ex_direction(value: ExDirection) -> (result: Result<&'static str, UgcError>)
    ensures
        match ex_direction_text(value) {
            Some(text) => result matches Ok(t) && t@ == text,
            None => (result matches Err(UgcError::UnsupportedNote { note }) && note@ == "diagonal Ex direction"@),
        },
{
    match value {
        ExDirection::Up => Ok("U"),
        ExDirection::Down => Ok("D"),
        ExDirection::Center => Ok("C"),
        ExDirection::All => Ok("A"),
        ExDirection::Wide => Ok("W"),
        ExDirection::Left => Ok("L"),
        ExDirection::Right => Ok("R"),
        ExDirection::Inward => Ok("I"),
        ExDirection::UpperLeft | ExDirection::UpperRight | ExDirection::LowerLeft | ExDirection::LowerRight => Err(unsupported_note("diagonal Ex direction")),
    }
}

/// The UGC code of an AIR direction.
pub open spec fn air_direction_text(value: AirDirection) -> Seq<char> {
    match value {
        AirDirection::Up => "UC"@,
        AirDirection::UpperLeft => "UL"@,
        AirDirection::UpperRight => "UR"@,
        AirDirection::Down => "DC"@,
        AirDirection::LowerLeft => "DL"@,
        AirDirection::LowerRight => "DR"@,
    }
}

/// Writes an AIR direction as its UGC code.
pub fn encode_air_direction(value: AirDirection) -> (text: &'static str)
    ensures
        text@ == air_direction_text(value),
{
    match value {
        AirDirection::Up => "UC",
        AirDirection::UpperLeft => "UL",
        AirDirection::UpperRight => "UR",
        AirDirection::Down => "DC",
        AirDirection::LowerLeft => "DL",
        AirDirection::LowerRight => "DR",
    }
}

/// The UGC code of an AIR Crush color.
pub open spec fn air_crush_color_text(value: AirCrushColor) -> Seq<char> {
    match value {
        AirCrushColor::Normal => "0"@,
        AirCrushColor::Transparent => "Z"@,
        AirCrushColor::Red => "1"@,
        AirCrushColor::Orange => "2"@,
        AirCrushColor::Yellow => "3"@,
        AirCrushColor::Lime => "4"@,
        AirCrushColor::Green => "5"@,
        AirCrushColor::Aqua => "6"@,
        AirCrushColor::Cyan => "7"@,
        AirCrushColor::DarkBlue => "8"@,
        AirCrushColor::Blue => "9"@,
        AirCrushColor::Violet => "A"@,
        AirCrushColor::Purple => "Y"@,
        AirCrushColor::Pink => "B"@,
        AirCrushColor::Gray => "C"@,
        AirCrushColor::Black => "D"@,
    }
}

/// Writes an AIR Crush color as its UGC code.
pub fn encode_air_crush_color(value: AirCrushColor) -> (text: &'static str)
    ensures
        text@ == air_crush_color_text(value),
{
    match value {
        AirCrushColor::Normal => "0",
        AirCrushColor::Transparent => "Z",
        AirCrushColor::Red => "1",
        AirCrushColor::Orange => "2",
        AirCrushColor::Yellow => "3",
        AirCrushColor::Lime => "4",
        AirCrushColor::Green => "5",
        AirCrushColor::Aqua => "6",
        AirCrushColor::Cyan => "7",
        AirCrushColor::DarkBlue => "8",
        AirCrushColor::Blue => "9",
        AirCrushColor::Violet => "A",
        AirCrushColor::Purple => "Y",
        AirCrushColor::Pink => "B",
        AirCrushColor::Gray => "C",
        AirCrushColor::Black => "D",
    }
}

/// Every Ex direction that UGC can write is read back unchanged.
pub proof fn lemma_ex_direction_round_trip(value: ExDirection)
    ensures
        ex_direction_text(value) matches Some(text) ==> ex_direction_code(text) == Some(value),
{
    reveal_strlit("U");
    reveal_strlit("D");
    reveal_strlit("C");
    reveal_strlit("A");
    reveal_strlit("W");
    reveal_strlit("L");
    reveal_strlit("R");
    reveal_strlit("I");
    assert("U"@ != "D"@) by { assert("U"@[0] != "D"@[0]); }
    assert("U"@ != "C"@) by { assert("U"@[0] != "C"@[0]); }
    assert("U"@ != "A"@) by { assert("U"@[0] != "A"@[0]); }
    assert("U"@ != "W"@) by { assert("U"@[0] != "W"@[0]); }
    assert("U"@ != "L"@) by { assert("U"@[0] != "L"@[0]); }
    assert("U"@ != "R"@) by { assert("U"@[0] != "R"@[0]); }
    assert("U"@ != "I"@) by { assert("U"@[0] != "I"@[0]); }
    assert("D"@ != "U"@) by { assert("D"@[0] != "U"@[0]); }
    assert("D"@ != "C"@) by { assert("D"@[0] != "C"@[0]); }
    assert("D"@ != "A"@) by { assert("D"@[0] != "A"@[0]); }
    assert("D"@ != "W"@) by { assert("D"@[0] != "W"@[0]); }
    assert("D"@ != "L"@) by { assert("D"@[0] != "L"@[0]); }
    assert("D"@ != "R"@) by { assert("D"@[0] != "R"@[0]); }
    assert("D"@ != "I"@) by { assert("D"@[0] != "I"@[0]); }
    assert("C"@ != "U"@) by { assert("C"@[0] != "U"@[0]); }
    assert("C"@ != "D"@) by { assert("C"@[0] != "D"@[0]); }
    assert("C"@ != "A"@) by { assert("C"@[0] != "A"@[0]); }
    assert("C"@ != "W"@) by { assert("C"@[0] != "W"@[0]); }
    assert("C"@ != "L"@) by { assert("C"@[0] != "L"@[0]); }
    assert("C"@ != "R"@) by { assert("C"@[0] != "R"@[0]); }
    assert("C"@ != "I"@) by { assert("C"@[0] != "I"@[0]); }
    assert("A"@ != "U"@) by { assert("A"@[0] != "U"@[0]); }
    assert("A"@ != "D"@) by { assert("A"@[0] != "D"@[0]); }
    assert("A"@ != "C"@) by { assert("A"@[0] != "C"@[0]); }
    assert("A"@ != "W"@) by { assert("A"@[0] != "W"@[0]); }
    assert("A"@ != "L"@) by { assert("A"@[0] != "L"@[0]); }
    assert("A"@ != "R"@) by { assert("A"@[0] != "R"@[0]); }
    assert("A"@ != "I"@) by { assert("A"@[0] != "I"@[0]); }
    assert("W"@ != "U"@) by { assert("W"@[0] != "U"@[0]); }
    assert("W"@ != "D"@) by { assert("W"@[0] != "D"@[0]); }
    assert("W"@ != "C"@) by { assert("W"@[0] != "C"@[0]); }
    assert("W"@ != "A"@) by { assert("W"@[0] != "A"@[0]); }
    assert("W"@ != "L"@) by { assert("W"@[0] != "L"@[0]); }
    assert("W"@ != "R"@) by { assert("W"@[0] != "R"@[0]); }
    assert("W"@ != "I"@) by { assert("W"@[0] != "I"@[0]); }
    assert("L"@ != "U"@) by { assert("L"@[0] != "U"@[0]); }
    assert("L"@ != "D"@) by { assert("L"@[0] != "D"@[0]); }
    assert("L"@ != "C"@) by { assert("L"@[0] != "C"@[0]); }
    assert("L"@ != "A"@) by { assert("L"@[0] != "A"@[0]); }
    assert("L"@ != "W"@) by { assert("L"@[0] != "W"@[0]); }
    assert("L"@ != "R"@) by { assert("L"@[0] != "R"@[0]); }
    assert("L"@ != "I"@) by { assert("L"@[0] != "I"@[0]); }
    assert("R"@ != "U"@) by { assert("R"@[0] != "U"@[0]); }
    assert("R"@ != "D"@) by { assert("R"@[0] != "D"@[0]); }
    assert("R"@ != "C"@) by { assert("R"@[0] != "C"@[0]); }
    assert("R"@ != "A"@) by { assert("R"@[0] != "A"@[0]); }
    assert("R"@ != "W"@) by { assert("R"@[0] != "W"@[0]); }
    assert("R"@ != "L"@) by { assert("R"@[0] != "L"@[0]); }
    assert("R"@ != "I"@) by { assert("R"@[0] != "I"@[0]); }
    assert("I"@ != "U"@) by { assert("I"@[0] != "U"@[0]); }
    assert("I"@ != "D"@) by { assert("I"@[0] != "D"@[0]); }
    assert("I"@ != "C"@) by { assert("I"@[0] != "C"@[0]); }
    assert("I"@ != "A"@) by { assert("I"@[0] != "A"@[0]); }
    assert("I"@ != "W"@) by { assert("I"@[0] != "W"@[0]); }
    assert("I"@ != "L"@) by { assert("I"@[0] != "L"@[0]); }
    assert("I"@ != "R"@) by { assert("I"@[0] != "R"@[0]); }
}

/// Every AIR direction is read back unchanged from its UGC code.
pub proof fn lemma_air_direction_round_trip(value: AirDirection)
    ensures
        air_direction_code(air_direction_text(value)) == Some(value),
{
    reveal_strlit("UC");
    reveal_strlit("UL");
    reveal_strlit("UR");
    reveal_strlit("DC");
    reveal_strlit("DL");
    reveal_strlit("DR");
    assert("UC"@ != "UL"@) by { assert("UC"@[1] != "UL"@[1]); }
    assert("UC"@ != "UR"@) by { assert("UC"@[1] != "UR"@[1]); }
    assert("UC"@ != "DC"@) by { assert("UC"@[0] != "DC"@[0]); }
    assert("UC"@ != "DL"@) by { assert("UC"@[0] != "DL"@[0]); }
    assert("UC"@ != "DR"@) by { assert("UC"@[0] != "DR"@[0]); }
    assert("UL"@ != "UC"@) by { assert("UL"@[1] != "UC"@[1]); }
    assert("UL"@ != "UR"@) by { assert("UL"@[1] != "UR"@[1]); }
    assert("UL"@ != "DC"@) by { assert("UL"@[0] != "DC"@[0]); }
    assert("UL"@ != "DL"@) by { assert("UL"@[0] != "DL"@[0]); }
    assert("UL"@ != "DR"@) by { assert("UL"@[0] != "DR"@[0]); }
    assert("UR"@ != "UC"@) by { assert("UR"@[1] != "UC"@[1]); }
    assert("UR"@ != "UL"@) by { assert("UR"@[1] != "UL"@[1]); }
    assert("UR"@ != "DC"@) by { assert("UR"@[0] != "DC"@[0]); }
    assert("UR"@ != "DL"@) by { assert("UR"@[0] != "DL"@[0]); }
    assert("UR"@ != "DR"@) by { assert("UR"@[0] != "DR"@[0]); }
    assert("DC"@ != "UC"@) by { assert("DC"@[0] != "UC"@[0]); }
    assert("DC"@ != "UL"@) by { assert("DC"@[0] != "UL"@[0]); }
    assert("DC"@ != "UR"@) by { assert("DC"@[0] != "UR"@[0]); }
    assert("DC"@ != "DL"@) by { assert("DC"@[1] != "DL"@[1]); }
    assert("DC"@ != "DR"@) by { assert("DC"@[1] != "DR"@[1]); }
    assert("DL"@ != "UC"@) by { assert("DL"@[0] != "UC"@[0]); }
    assert("DL"@ != "UL"@) by { assert("DL"@[0] != "UL"@[0]); }
    assert("DL"@ != "UR"@) by { assert("DL"@[0] != "UR"@[0]); }
    assert("DL"@ != "DC"@) by { assert("DL"@[1] != "DC"@[1]); }
    assert("DL"@ != "DR"@) by { assert("DL"@[1] != "DR"@[1]); }
    assert("DR"@ != "UC"@) by { assert("DR"@[0] != "UC"@[0]); }
    assert("DR"@ != "UL"@) by { assert("DR"@[0] != "UL"@[0]); }
    assert("DR"@ != "UR"@) by { assert("DR"@[0] != "UR"@[0]); }
    assert("DR"@ != "DC"@) by { assert("DR"@[1] != "DC"@[1]); }
    assert("DR"@ != "DL"@) by { assert("DR"@[1] != "DL"@[1]); }
}

/// Every AIR Crush color is read back unchanged from its UGC code.
pub proof fn lemma_air_crush_color_round_trip(value: AirCrushColor)
    ensures
        air_crush_color_code(air_crush_color_text(value)) == Some(value),
{
    reveal_strlit("0");
    reveal_strlit("Z");
    reveal_strlit("1");
    reveal_strlit("2");
    reveal_strlit("3");
    reveal_strlit("4");
    reveal_strlit("5");
    reveal_strlit("6");
    reveal_strlit("7");
    reveal_strlit("8");
    reveal_strlit("9");
    reveal_strlit("A");
    reveal_strlit("Y");
    reveal_strlit("B");
    reveal_strlit("C");
    reveal_strlit("D");
    assert("0"@ != "Z"@) by { assert("0"@[0] != "Z"@[0]); }
    assert("0"@ != "1"@) by { assert("0"@[0] != "1"@[0]); }
    assert("0"@ != "2"@) by { assert("0"@[0] != "2"@[0]); }
    assert("0"@ != "3"@) by { assert("0"@[0] != "3"@[0]); }
    assert("0"@ != "4"@) by { assert("0"@[0] != "4"@[0]); }
    assert("0"@ != "5"@) by { assert("0"@[0] != "5"@[0]); }
    assert("0"@ != "6"@) by { assert("0"@[0] != "6"@[0]); }
    assert("0"@ != "7"@) by { assert("0"@[0] != "7"@[0]); }
    assert("0"@ != "8"@) by { assert("0"@[0] != "8"@[0]); }
    assert("0"@ != "9"@) by { assert("0"@[0] != "9"@[0]); }
    assert("0"@ != "A"@) by { assert("0"@[0] != "A"@[0]); }
    assert("0"@ != "Y"@) by { assert("0"@[0] != "Y"@[0]); }
    assert("0"@ != "B"@) by { assert("0"@[0] != "B"@[0]); }
    assert("0"@ != "C"@) by { assert("0"@[0] != "C"@[0]); }
    assert("0"@ != "D"@) by { assert("0"@[0] != "D"@[0]); }
    assert("Z"@ != "0"@) by { assert("Z"@[0] != "0"@[0]); }
    assert("Z"@ != "1"@) by { assert("Z"@[0] != "1"@[0]); }
    assert("Z"@ != "2"@) by { assert("Z"@[0] != "2"@[0]); }
    assert("Z"@ != "3"@) by { assert("Z"@[0] != "3"@[0]); }
    assert("Z"@ != "4"@) by { assert("Z"@[0] != "4"@[0]); }
    assert("Z"@ != "5"@) by { assert("Z"@[0] != "5"@[0]); }
    assert("Z"@ != "6"@) by { assert("Z"@[0] != "6"@[0]); }
    assert("Z"@ != "7"@) by { assert("Z"@[0] != "7"@[0]); }
    assert("Z"@ != "8"@) by { assert("Z"@[0] != "8"@[0]); }
    assert("Z"@ != "9"@) by { assert("Z"@[0] != "9"@[0]); }
    assert("Z"@ != "A"@) by { assert("Z"@[0] != "A"@[0]); }
    assert("Z"@ != "Y"@) by { assert("Z"@[0] != "Y"@[0]); }
    assert("Z"@ != "B"@) by { assert("Z"@[0] != "B"@[0]); }
    assert("Z"@ != "C"@) by { assert("Z"@[0] != "C"@[0]); }
    assert("Z"@ != "D"@) by { assert("Z"@[0] != "D"@[0]); }
    assert("1"@ != "0"@) by { assert("1"@[0] != "0"@[0]); }
    assert("1"@ != "Z"@) by { assert("1"@[0] != "Z"@[0]); }
    assert("1"@ != "2"@) by { assert("1"@[0] != "2"@[0]); }
    assert("1"@ != "3"@) by { assert("1"@[0] != "3"@[0]); }
    assert("1"@ != "4"@) by { assert("1"@[0] != "4"@[0]); }
    assert("1"@ != "5"@) by { assert("1"@[0] != "5"@[0]); }
    assert("1"@ != "6"@) by { assert("1"@[0] != "6"@[0]); }
    assert("1"@ != "7"@) by { assert("1"@[0] != "7"@[0]); }
    assert("1"@ != "8"@) by { assert("1"@[0] != "8"@[0]); }
    assert("1"@ != "9"@) by { assert("1"@[0] != "9"@[0]); }
    assert("1"@ != "A"@) by { assert("1"@[0] != "A"@[0]); }
    assert("1"@ != "Y"@) by { assert("1"@[0] != "Y"@[0]); }
    assert("1"@ != "B"@) by { assert("1"@[0] != "B"@[0]); }
    assert("1"@ != "C"@) by { assert("1"@[0] != "C"@[0]); }
    assert("1"@ != "D"@) by { assert("1"@[0] != "D"@[0]); }
    assert("2"@ != "0"@) by { assert("2"@[0] != "0"@[0]); }
    assert("2"@ != "Z"@) by { assert("2"@[0] != "Z"@[0]); }
    assert("2"@ != "1"@) by { assert("2"@[0] != "1"@[0]); }
    assert("2"@ != "3"@) by { assert("2"@[0] != "3"@[0]); }
    assert("2"@ != "4"@) by { assert("2"@[0] != "4"@[0]); }
    assert("2"@ != "5"@) by { assert("2"@[0] != "5"@[0]); }
    assert("2"@ != "6"@) by { assert("2"@[0] != "6"@[0]); }
    assert("2"@ != "7"@) by { assert("2"@[0] != "7"@[0]); }
    assert("2"@ != "8"@) by { assert("2"@[0] != "8"@[0]); }
    assert("2"@ != "9"@) by { assert("2"@[0] != "9"@[0]); }
    assert("2"@ != "A"@) by { assert("2"@[0] != "A"@[0]); }
    assert("2"@ != "Y"@) by { assert("2"@[0] != "Y"@[0]); }
    assert("2"@ != "B"@) by { assert("2"@[0] != "B"@[0]); }
    assert("2"@ != "C"@) by { assert("2"@[0] != "C"@[0]); }
    assert("2"@ != "D"@) by { assert("2"@[0] != "D"@[0]); }
    assert("3"@ != "0"@) by { assert("3"@[0] != "0"@[0]); }
    assert("3"@ != "Z"@) by { assert("3"@[0] != "Z"@[0]); }
    assert("3"@ != "1"@) by { assert("3"@[0] != "1"@[0]); }
    assert("3"@ != "2"@) by { assert("3"@[0] != "2"@[0]); }
    assert("3"@ != "4"@) by { assert("3"@[0] != "4"@[0]); }
    assert("3"@ != "5"@) by { assert("3"@[0] != "5"@[0]); }
    assert("3"@ != "6"@) by { assert("3"@[0] != "6"@[0]); }
    assert("3"@ != "7"@) by { assert("3"@[0] != "7"@[0]); }
    assert("3"@ != "8"@) by { assert("3"@[0] != "8"@[0]); }
    assert("3"@ != "9"@) by { assert("3"@[0] != "9"@[0]); }
    assert("3"@ != "A"@) by { assert("3"@[0] != "A"@[0]); }
    assert("3"@ != "Y"@) by { assert("3"@[0] != "Y"@[0]); }
    assert("3"@ != "B"@) by { assert("3"@[0] != "B"@[0]); }
    assert("3"@ != "C"@) by { assert("3"@[0] != "C"@[0]); }
    assert("3"@ != "D"@) by { assert("3"@[0] != "D"@[0]); }
    assert("4"@ != "0"@) by { assert("4"@[0] != "0"@[0]); }
    assert("4"@ != "Z"@) by { assert("4"@[0] != "Z"@[0]); }
    assert("4"@ != "1"@) by { assert("4"@[0] != "1"@[0]); }
    assert("4"@ != "2"@) by { assert("4"@[0] != "2"@[0]); }
    assert("4"@ != "3"@) by { assert("4"@[0] != "3"@[0]); }
    assert("4"@ != "5"@) by { assert("4"@[0] != "5"@[0]); }
    assert("4"@ != "6"@) by { assert("4"@[0] != "6"@[0]); }
    assert("4"@ != "7"@) by { assert("4"@[0] != "7"@[0]); }
    assert("4"@ != "8"@) by { assert("4"@[0] != "8"@[0]); }
    assert("4"@ != "9"@) by { assert("4"@[0] != "9"@[0]); }
    assert("4"@ != "A"@) by { assert("4"@[0] != "A"@[0]); }
    assert("4"@ != "Y"@) by { assert("4"@[0] != "Y"@[0]); }
    assert("4"@ != "B"@) by { assert("4"@[0] != "B"@[0]); }
    assert("4"@ != "C"@) by { assert("4"@[0] != "C"@[0]); }
    assert("4"@ != "D"@) by { assert("4"@[0] != "D"@[0]); }
    assert("5"@ != "0"@) by { assert("5"@[0] != "0"@[0]); }
    assert("5"@ != "Z"@) by { assert("5"@[0] != "Z"@[0]); }
    assert("5"@ != "1"@) by { assert("5"@[0] != "1"@[0]); }
    assert("5"@ != "2"@) by { assert("5"@[0] != "2"@[0]); }
    assert("5"@ != "3"@) by { assert("5"@[0] != "3"@[0]); }
    assert("5"@ != "4"@) by { assert("5"@[0] != "4"@[0]); }
    assert("5"@ != "6"@) by { assert("5"@[0] != "6"@[0]); }
    assert("5"@ != "7"@) by { assert("5"@[0] != "7"@[0]); }
    assert("5"@ != "8"@) by { assert("5"@[0] != "8"@[0]); }
    assert("5"@ != "9"@) by { assert("5"@[0] != "9"@[0]); }
    assert("5"@ != "A"@) by { assert("5"@[0] != "A"@[0]); }
    assert("5"@ != "Y"@) by { assert("5"@[0] != "Y"@[0]); }
    assert("5"@ != "B"@) by { assert("5"@[0] != "B"@[0]); }
    assert("5"@ != "C"@) by { assert("5"@[0] != "C"@[0]); }
    assert("5"@ != "D"@) by { assert("5"@[0] != "D"@[0]); }
    assert("6"@ != "0"@) by { assert("6"@[0] != "0"@[0]); }
    assert("6"@ != "Z"@) by { assert("6"@[0] != "Z"@[0]); }
    assert("6"@ != "1"@) by { assert("6"@[0] != "1"@[0]); }
    assert("6"@ != "2"@) by { assert("6"@[0] != "2"@[0]); }
    assert("6"@ != "3"@) by { assert("6"@[0] != "3"@[0]); }
    assert("6"@ != "4"@) by { assert("6"@[0] != "4"@[0]); }
    assert("6"@ != "5"@) by { assert("6"@[0] != "5"@[0]); }
    assert("6"@ != "7"@) by { assert("6"@[0] != "7"@[0]); }
    assert("6"@ != "8"@) by { assert("6"@[0] != "8"@[0]); }
    assert("6"@ != "9"@) by { assert("6"@[0] != "9"@[0]); }
    assert("6"@ != "A"@) by { assert("6"@[0] != "A"@[0]); }
    assert("6"@ != "Y"@) by { assert("6"@[0] != "Y"@[0]); }
    assert("6"@ != "B"@) by { assert("6"@[0] != "B"@[0]); }
    assert("6"@ != "C"@) by { assert("6"@[0] != "C"@[0]); }
    assert("6"@ != "D"@) by { assert("6"@[0] != "D"@[0]); }
    assert("7"@ != "0"@) by { assert("7"@[0] != "0"@[0]); }
    assert("7"@ != "Z"@) by { assert("7"@[0] != "Z"@[0]); }
    assert("7"@ != "1"@) by { assert("7"@[0] != "1"@[0]); }
    assert("7"@ != "2"@) by { assert("7"@[0] != "2"@[0]); }
    assert("7"@ != "3"@) by { assert("7"@[0] != "3"@[0]); }
    assert("7"@ != "4"@) by { assert("7"@[0] != "4"@[0]); }
    assert("7"@ != "5"@) by { assert("7"@[0] != "5"@[0]); }
    assert("7"@ != "6"@) by { assert("7"@[0] != "6"@[0]); }
    assert("7"@ != "8"@) by { assert("7"@[0] != "8"@[0]); }
    assert("7"@ != "9"@) by { assert("7"@[0] != "9"@[0]); }
    assert("7"@ != "A"@) by { assert("7"@[0] != "A"@[0]); }
    assert("7"@ != "Y"@) by { assert("7"@[0] != "Y"@[0]); }
    assert("7"@ != "B"@) by { assert("7"@[0] != "B"@[0]); }
    assert("7"@ != "C"@) by { assert("7"@[0] != "C"@[0]); }
    assert("7"@ != "D"@) by { assert("7"@[0] != "D"@[0]); }
    assert("8"@ != "0"@) by { assert("8"@[0] != "0"@[0]); }
    assert("8"@ != "Z"@) by { assert("8"@[0] != "Z"@[0]); }
    assert("8"@ != "1"@) by { assert("8"@[0] != "1"@[0]); }
    assert("8"@ != "2"@) by { assert("8"@[0] != "2"@[0]); }
    assert("8"@ != "3"@) by { assert("8"@[0] != "3"@[0]); }
    assert("8"@ != "4"@) by { assert("8"@[0] != "4"@[0]); }
    assert("8"@ != "5"@) by { assert("8"@[0] != "5"@[0]); }
    assert("8"@ != "6"@) by { assert("8"@[0] != "6"@[0]); }
    assert("8"@ != "7"@) by { assert("8"@[0] != "7"@[0]); }
    assert("8"@ != "9"@) by { assert("8"@[0] != "9"@[0]); }
    assert("8"@ != "A"@) by { assert("8"@[0] != "A"@[0]); }
    assert("8"@ != "Y"@) by { assert("8"@[0] != "Y"@[0]); }
    assert("8"@ != "B"@) by { assert("8"@[0] != "B"@[0]); }
    assert("8"@ != "C"@) by { assert("8"@[0] != "C"@[0]); }
    assert("8"@ != "D"@) by { assert("8"@[0] != "D"@[0]); }
    assert("9"@ != "0"@) by { assert("9"@[0] != "0"@[0]); }
    assert("9"@ != "Z"@) by { assert("9"@[0] != "Z"@[0]); }
    assert("9"@ != "1"@) by { assert("9"@[0] != "1"@[0]); }
    assert("9"@ != "2"@) by { assert("9"@[0] != "2"@[0]); }
    assert("9"@ != "3"@) by { assert("9"@[0] != "3"@[0]); }
    assert("9"@ != "4"@) by { assert("9"@[0] != "4"@[0]); }
    assert("9"@ != "5"@) by { assert("9"@[0] != "5"@[0]); }
    assert("9"@ != "6"@) by { assert("9"@[0] != "6"@[0]); }
    assert("9"@ != "7"@) by { assert("9"@[0] != "7"@[0]); }
    assert("9"@ != "8"@) by { assert("9"@[0] != "8"@[0]); }
    assert("9"@ != "A"@) by { assert("9"@[0] != "A"@[0]); }
    assert("9"@ != "Y"@) by { assert("9"@[0] != "Y"@[0]); }
    assert("9"@ != "B"@) by { assert("9"@[0] != "B"@[0]); }
    assert("9"@ != "C"@) by { assert("9"@[0] != "C"@[0]); }
    assert("9"@ != "D"@) by { assert("9"@[0] != "D"@[0]); }
    assert("A"@ != "0"@) by { assert("A"@[0] != "0"@[0]); }
    assert("A"@ != "Z"@) by { assert("A"@[0] != "Z"@[0]); }
    assert("A"@ != "1"@) by { assert("A"@[0] != "1"@[0]); }
    assert("A"@ != "2"@) by { assert("A"@[0] != "2"@[0]); }
    assert("A"@ != "3"@) by { assert("A"@[0] != "3"@[0]); }
    assert("A"@ != "4"@) by { assert("A"@[0] != "4"@[0]); }
    assert("A"@ != "5"@) by { assert("A"@[0] != "5"@[0]); }
    assert("A"@ != "6"@) by { assert("A"@[0] != "6"@[0]); }
    assert("A"@ != "7"@) by { assert("A"@[0] != "7"@[0]); }
    assert("A"@ != "8"@) by { assert("A"@[0] != "8"@[0]); }
    assert("A"@ != "9"@) by { assert("A"@[0] != "9"@[0]); }
    assert("A"@ != "Y"@) by { assert("A"@[0] != "Y"@[0]); }
    assert("A"@ != "B"@) by { assert("A"@[0] != "B"@[0]); }
    assert("A"@ != "C"@) by { assert("A"@[0] != "C"@[0]); }
    assert("A"@ != "D"@) by { assert("A"@[0] != "D"@[0]); }
    assert("Y"@ != "0"@) by { assert("Y"@[0] != "0"@[0]); }
    assert("Y"@ != "Z"@) by { assert("Y"@[0] != "Z"@[0]); }
    assert("Y"@ != "1"@) by { assert("Y"@[0] != "1"@[0]); }
    assert("Y"@ != "2"@) by { assert("Y"@[0] != "2"@[0]); }
    assert("Y"@ != "3"@) by { assert("Y"@[0] != "3"@[0]); }
    assert("Y"@ != "4"@) by { assert("Y"@[0] != "4"@[0]); }
    assert("Y"@ != "5"@) by { assert("Y"@[0] != "5"@[0]); }
    assert("Y"@ != "6"@) by { assert("Y"@[0] != "6"@[0]); }
    assert("Y"@ != "7"@) by { assert("Y"@[0] != "7"@[0]); }
    assert("Y"@ != "8"@) by { assert("Y"@[0] != "8"@[0]); }
    assert("Y"@ != "9"@) by { assert("Y"@[0] != "9"@[0]); }
    assert("Y"@ != "A"@) by { assert("Y"@[0] != "A"@[0]); }
    assert("Y"@ != "B"@) by { assert("Y"@[0] != "B"@[0]); }
    assert("Y"@ != "C"@) by { assert("Y"@[0] != "C"@[0]); }
    assert("Y"@ != "D"@) by { assert("Y"@[0] != "D"@[0]); }
    assert("B"@ != "0"@) by { assert("B"@[0] != "0"@[0]); }
    assert("B"@ != "Z"@) by { assert("B"@[0] != "Z"@[0]); }
    assert("B"@ != "1"@) by { assert("B"@[0] != "1"@[0]); }
    assert("B"@ != "2"@) by { assert("B"@[0] != "2"@[0]); }
    assert("B"@ != "3"@) by { assert("B"@[0] != "3"@[0]); }
    assert("B"@ != "4"@) by { assert("B"@[0] != "4"@[0]); }
    assert("B"@ != "5"@) by { assert("B"@[0] != "5"@[0]); }
    assert("B"@ != "6"@) by { assert("B"@[0] != "6"@[0]); }
    assert("B"@ != "7"@) by { assert("B"@[0] != "7"@[0]); }
    assert("B"@ != "8"@) by { assert("B"@[0] != "8"@[0]); }
    assert("B"@ != "9"@) by { assert("B"@[0] != "9"@[0]); }
    assert("B"@ != "A"@) by { assert("B"@[0] != "A"@[0]); }
    assert("B"@ != "Y"@) by { assert("B"@[0] != "Y"@[0]); }
    assert("B"@ != "C"@) by { assert("B"@[0] != "C"@[0]); }
    assert("B"@ != "D"@) by { assert("B"@[0] != "D"@[0]); }
    assert("C"@ != "0"@) by { assert("C"@[0] != "0"@[0]); }
    assert("C"@ != "Z"@) by { assert("C"@[0] != "Z"@[0]); }
    assert("C"@ != "1"@) by { assert("C"@[0] != "1"@[0]); }
    assert("C"@ != "2"@) by { assert("C"@[0] != "2"@[0]); }
    assert("C"@ != "3"@) by { assert("C"@[0] != "3"@[0]); }
    assert("C"@ != "4"@) by { assert("C"@[0] != "4"@[0]); }
    assert("C"@ != "5"@) by { assert("C"@[0] != "5"@[0]); }
    assert("C"@ != "6"@) by { assert("C"@[0] != "6"@[0]); }
    assert("C"@ != "7"@) by { assert("C"@[0] != "7"@[0]); }
    assert("C"@ != "8"@) by { assert("C"@[0] != "8"@[0]); }
    assert("C"@ != "9"@) by { assert("C"@[0] != "9"@[0]); }
    assert("C"@ != "A"@) by { assert("C"@[0] != "A"@[0]); }
    assert("C"@ != "Y"@) by { assert("C"@[0] != "Y"@[0]); }
    assert("C"@ != "B"@) by { assert("C"@[0] != "B"@[0]); }
    assert("C"@ != "D"@) by { assert("C"@[0] != "D"@[0]); }
    assert("D"@ != "0"@) by { assert("D"@[0] != "0"@[0]); }
    assert("D"@ != "Z"@) by { assert("D"@[0] != "Z"@[0]); }
    assert("D"@ != "1"@) by { assert("D"@[0] != "1"@[0]); }
    assert("D"@ != "2"@) by { assert("D"@[0] != "2"@[0]); }
    assert("D"@ != "3"@) by { assert("D"@[0] != "3"@[0]); }
    assert("D"@ != "4"@) by { assert("D"@[0] != "4"@[0]); }
    assert("D"@ != "5"@) by { assert("D"@[0] != "5"@[0]); }
    assert("D"@ != "6"@) by { assert("D"@[0] != "6"@[0]); }
    assert("D"@ != "7"@) by { assert("D"@[0] != "7"@[0]); }
    assert("D"@ != "8"@) by { assert("D"@[0] != "8"@[0]); }
    assert("D"@ != "9"@) by { assert("D"@[0] != "9"@[0]); }
    assert("D"@ != "A"@) by { assert("D"@[0] != "A"@[0]); }
    assert("D"@ != "Y"@) by { assert("D"@[0] != "Y"@[0]); }
    assert("D"@ != "B"@) by { assert("D"@[0] != "B"@[0]); }
    assert("D"@ != "C"@) by { assert("D"@[0] != "C"@[0]); }
}

/// The flick direction a UGC code names: no direction for an empty code or
/// for `A`.
pub open spec fn flick_direction_code(value: Seq<char>) -> Option<Option<ExDirection>> {
    if value.len() == 0 || value == "A"@ {
        Some(None)
    } else {
        match ex_direction_code(value) {
            Some(direction) => Some(Some(direction)),
            None => None,
        }
    }
}

/// Reads a UGC flick direction code.
pub fn parse_flick_direction(line: usize, value: &str) -> (result: Result<Option<ExDirection>, UgcError>)
    ensures
        match flick_direction_code(value@) {
            Some(found) => result == Ok::<Option<ExDirection>, UgcError>(found),
            None => result matches Err(UgcError::InvalidValue { line: l, value: v }) && l == line && v@ == value@,
        },
{
    if value.is_empty() || text_is(value, "A") {
        Ok(None)
    } else {
        let direction = parse_ex_direction(line, value)?;
        Ok(Some(direction))
    }
}

/// The UGC code of a flick direction: nothing for none, and only the
/// directions `A`, `L` and `R`.
pub open spec fn flick_direction_text(direction: Option<ExDirection>) -> Option<Seq<char>> {
    match direction {
        None => Some(Seq::empty()),
        Some(ExDirection::All) => Some("A"@),
        Some(ExDirection::Left) => Some("L"@),
        Some(ExDirection::Right) => Some("R"@),
        Some(_) => None,
    }
}

/// Writes a flick direction as its UGC code.
pub fn encode_flick_direction(direction: Option<ExDirection>) -> (result: Result<String, UgcError>)
    ensures
        match flick_direction_text(direction) {
            Some(text) => result matches Ok(s) && s@ == text,
            None => (result matches Err(UgcError::UnsupportedNote { note }) && note@ == "unsupported Flick direction"@),
        },
{
    match direction {
        None => Ok(String::new()),
        Some(ExDirection::All) => Ok(String::from_str("A")),
        Some(ExDirection::Left) => Ok(String::from_str("L")),
        Some(ExDirection::Right) => Ok(String::from_str("R")),
        Some(_) => Err(unsupported_note("unsupported Flick direction")),
    }
}

/// A flick with no direction, or to the left or right, reads back as it was
/// written. (`A`, written for every direction at once, reads back as a flick
/// with no direction.)
pub proof fn lemma_flick_direction_round_trip(direction: Option<ExDirection>)
    requires
        direction != Some(ExDirection::All),
        flick_direction_text(direction) is Some,
    ensures
        flick_direction_code(flick_direction_text(direction)->0) == Some(direction),
{
    reveal_strlit("A");
    reveal_strlit("L");
    reveal_strlit("R");
    reveal_strlit("U");
    reveal_strlit("D");
    reveal_strlit("C");
    reveal_strlit("W");
    reveal_strlit("I");
    assert("L"@ != "A"@) by { assert("L"@[0] != "A"@[0]); }
    assert("R"@ != "A"@) by { assert("R"@[0] != "A"@[0]); }
    assert("L"@ != "U"@) by { assert("L"@[0] != "U"@[0]); }
    assert("L"@ != "D"@) by { assert("L"@[0] != "D"@[0]); }
    assert("L"@ != "C"@) by { assert("L"@[0] != "C"@[0]); }
    assert("L"@ != "W"@) by { assert("L"@[0] != "W"@[0]); }
    assert("R"@ != "U"@) by { assert("R"@[0] != "U"@[0]); }
    assert("R"@ != "D"@) by { assert("R"@[0] != "D"@[0]); }
    assert("R"@ != "C"@) by { assert("R"@[0] != "C"@[0]); }
    assert("R"@ != "W"@) by { assert("R"@[0] != "W"@[0]); }
    assert("R"@ != "L"@) by { assert("R"@[0] != "L"@[0]); }
}

/// The UGC letter of an AIR color.
pub open spec fn air_color_letter(color: AirColor) -> char {
    match color {
        AirColor::Normal => 'N',
        AirColor::Inverted => 'I',
    }
}

/// Writes an AIR color as its UGC letter.
pub fn encode_air_color(color: AirColor) -> (letter: char)
    ensures
        letter == air_color_letter(color),
{
    match color {
        AirColor::Normal => 'N',
        AirColor::Inverted => 'I',
    }
}

/// The truth value a UGC flag names.
pub open spec fn bool_code(value: Seq<char>) -> Option<bool> {
    if value == "TRUE"@ {
        Some(true)
    } else if value == "FALSE"@ {
        Some(false)
    } else {
        None
    }
}

/// Reads a UGC truth value, `TRUE` or `FALSE`.
pub fn parse_bool(line: usize, value: &str) -> (result: Result<bool, UgcError>)
    ensures
        match bool_code(value@) {
            Some(b) => result == Ok::<bool, UgcError>(b),
            None => result matches Err(UgcError::InvalidValue { line: l, value: v }) && l == line && v@ == value@,
        },
{
    if text_is(value, "TRUE") {
        Ok(true)
    } else if text_is(value, "FALSE") {
        Ok(false)
    } else {
        Err(invalid_value(line, value))
    }
}

/// The outcome is the invalid-value error for `text` on `line`.
pub open spec fn rejects_value<T>(result: Result<T, UgcError>, line: usize, text: Seq<char>) -> bool {
    match result {
        Err(UgcError::InvalidValue { line: l, value: v }) => l == line && v@ == text,
        _ => false,
    }
}

/// Reads one base-36 digit, in either case.
pub fn base36(line: usize, value: u8) -> (result: Result<u8, UgcError>)
    ensures
        match digit_value(value, 36) {
            Some(v) => result == Ok::<u8, UgcError>(v as u8),
            None => rejects_value(result, line, seq![value as char]),
        },
{
    match crate::text::digit(value, 36) {
        Some(v) => Ok(v),
        None => {
            let mut text = String::new();
            text.push(value as char);
            proof {
                assert(text@ =~= seq![value as char]);
            }
            Err(UgcError::InvalidValue { line, value: text })
        },
    }
}

/// Reads a slider lane written as two base-36 digits, its start and width.
pub fn parse_lane(line: usize, value: &str) -> (result: Result<Lane, UgcError>)
    ensures
        value.spec_bytes().len() != 2 ==> result == Err::<Lane, UgcError>(UgcError::MalformedRecord { line }),
        value.spec_bytes().len() == 2 ==> ({
            let b = value.spec_bytes();
            &&& digit_value(b[0], 36) is None ==> rejects_value(result, line, seq![b[0] as char])
            &&& digit_value(b[0], 36) is Some && digit_value(b[1], 36) is None ==> rejects_value(
                result,
                line,
                seq![b[1] as char],
            )
            &&& digit_value(b[0], 36) is Some && digit_value(b[1], 36) is Some ==> ({
                let s = digit_value(b[0], 36)->0 as u8;
                let w = digit_value(b[1], 36)->0 as u8;
                &&& w == 0 ==> result == Err::<Lane, UgcError>(
                    UgcError::Chart { line, source: ChartError::InvalidSliderLaneWidth },
                )
                &&& w != 0 && !valid_slider(s, w) ==> result == Err::<Lane, UgcError>(
                    UgcError::Chart { line, source: ChartError::InvalidSliderLane },
                )
                &&& valid_slider(s, w) ==> result == Ok::<Lane, UgcError>(Lane::Slider { start: s, width: w })
            })
        }),
{
    let bytes = value.as_bytes();
    if bytes.len() != 2 {
        return Err(UgcError::MalformedRecord { line });
    }
    let start = base36(line, bytes[0])?;
    let width = base36(line, bytes[1])?;
    match Lane::slider(start, width) {
        Ok(lane) => Ok(lane),
        Err(source) => Err(UgcError::Chart { line, source }),
    }
}

/// A header or directive line split at its first tab into the tag and the
/// value without surrounding white space; a line with no tab is all tag.
pub open spec fn directive_spec(line: Seq<char>) -> (Seq<char>, Seq<char>) {
    match split_once_spec(line, '\t') {
        Some((tag, value)) => (tag, trim_spec(value)),
        None => (line, Seq::empty()),
    }
}

/// Splits a header or directive line into its tag and its value.
pub fn split_directive(line: &str) -> (parts: (String, String))
    ensures
        parts.0@ == directive_spec(line@).0,
        parts.1@ == directive_spec(line@).1,
{
    let chars = chars_of(line);
    match split_once(chars.as_slice(), '\t') {
        Some((tag, value)) => {
            let value = trim(value.as_slice());
            (string_of(tag.as_slice()), string_of(value.as_slice()))
        },
        None => (line.to_owned(), String::new()),
    }
}

/// The decimal value of a text, if it is a numeral of at most `max`.
pub open spec fn decimal_value(text: Seq<char>, max: nat) -> Option<nat> {
    parse_unsigned_spec(vstd::utf8::encode_utf8(text), 10, max)
}

/// Reads an unsigned 64-bit decimal value.
pub fn parse_u64(line: usize, value: &str) -> (result: Result<u64, UgcError>)
    ensures
        match decimal_value(value@, u64::MAX as nat) {
            Some(v) => result == Ok::<u64, UgcError>(v as u64),
            None => rejects_value(result, line, value@),
        },
{
    match parse_unsigned(value.as_bytes(), 10, u64::MAX) {
        Some(v) => Ok(v),
        None => Err(invalid_value(line, value)),
    }
}

/// Reads an unsigned 32-bit decimal value.
pub fn parse_u32(line: usize, value: &str) -> (result: Result<u32, UgcError>)
    ensures
        match decimal_value(value@, u32::MAX as nat) {
            Some(v) => result == Ok::<u32, UgcError>(v as u32),
            None => rejects_value(result, line, value@),
        },
{
    match parse_unsigned(value.as_bytes(), 10, u32::MAX as u64) {
        Some(v) => Ok(v as u32),
        None => Err(invalid_value(line, value)),
    }
}

/// Reads a measure and a tick written as `measure'tick`.
pub fn parse_measure_tick(line: usize, value: &str) -> (result: Result<(u32, u64), UgcError>)
    ensures
        split_once_spec(value@, '\'') is None ==> result == Err::<(u32, u64), UgcError>(
            UgcError::MalformedRecord { line },
        ),
        split_once_spec(value@, '\'') matches Some((m, t)) ==> match (
            decimal_value(m, u32::MAX as nat),
            decimal_value(t, u64::MAX as nat),
        ) {
            (None, _) => rejects_value(result, line, m),
            (Some(_), None) => rejects_value(result, line, t),
            (Some(measure), Some(tick)) => result == Ok::<(u32, u64), UgcError>((measure as u32, tick as u64)),
        },
{
    let chars = chars_of(value);
    let (measure, tick) = match split_once(chars.as_slice(), '\'') {
        Some(parts) => parts,
        None => return Err(UgcError::MalformedRecord { line }),
    };
    let measure = string_of(measure.as_slice());
    let tick = string_of(tick.as_slice());
    let measure = parse_u32(line, measure.as_str())?;
    let tick = parse_u64(line, tick.as_str())?;
    Ok((measure, tick))
}

/// The offset and data of a follower line `#offset>data`.
pub open spec fn follower_spec(line: Seq<char>) -> Option<(nat, Seq<char>)> {
    if line.len() > 0 && line[0] == '#' {
        match split_once_spec(line.drop_first(), '>') {
            Some((offset, data)) => match decimal_value(offset, u64::MAX as nat) {
                Some(n) => Some((n, data)),
                None => None,
            },
            None => None,
        }
    } else {
        None
    }
}

/// Reads a follower line, which continues a long note: `#`, the offset in
/// ticks from the note, `>`, and the data.
pub fn parse_follower(line: &str) -> (result: Option<(u64, String)>)
    ensures
        match follower_spec(line@) {
            Some((offset, data)) => result matches Some((o, d)) && o == offset && d@ == data,
            None => result is None,
        },
{
    let chars = chars_of(line);
    if chars.len() == 0 || chars[0] != '#' {
        return None;
    }
    let mut rest: Vec<char> = Vec::new();
    let mut k: usize = 1;
    while k < chars.len()
        invariant
            1 <= k <= chars@.len(),
            rest@ == chars@.subrange(1, k as int),
        decreases chars@.len() - k,
    {
        rest.push(chars[k]);
        k += 1;
        proof {
            assert(rest@ =~= chars@.subrange(1, k as int));
        }
    }
    proof {
        assert(rest@ =~= chars@.drop_first());
    }
    let (offset, data) = match split_once(rest.as_slice(), '>') {
        Some(parts) => parts,
        None => return None,
    };
    let offset = string_of(offset.as_slice());
    match parse_unsigned(offset.as_str().as_bytes(), 10, u64::MAX) {
        Some(n) => Some((n, string_of(data.as_slice()))),
        None => None,
    }
}

/// Every digit of a numeral is a digit of its base.
proof fn lemma_numeral_digits(s: Seq<u8>, radix: nat, i: int)
    requires
        numeral_value(s, radix) is Some,
        0 <= i < s.len(),
    ensures
        digit_value(s[i], radix) is Some,
    decreases s.len(),
{
    if i < s.len() - 1 {
        lemma_numeral_digits(s.drop_last(), radix, i);
    }
}

/// The raw value of an AIR height code: its base-36 digits, if it is a
/// numeral that fits in 32 bits.
pub open spec fn air_height_raw(bytes: Seq<u8>) -> Option<nat> {
    at_most(numeral_value(bytes, 36), u32::MAX as nat)
}

/// Reads the base-36 digits of an AIR height code; the height is a half or a
/// twentieth of this value above one, for one digit or more.
pub fn air_height_code(line: usize, text: &str) -> (result: Result<u32, UgcError>)
    ensures
        match air_height_raw(text.spec_bytes()) {
            Some(v) => result == Ok::<u32, UgcError>(v as u32),
            None => rejects_value(result, line, text@),
        },
{
    let bytes = text.as_bytes();
    if bytes.len() == 0 {
        return Ok(0);
    }
    if bytes[0] == 43 {
        proof {
            if numeral_value(bytes@, 36) is Some {
                lemma_numeral_digits(bytes@, 36, 0);
            }
        }
        return Err(invalid_value(line, text));
    }
    match parse_unsigned(bytes, 36, u32::MAX as u64) {
        Some(v) => Ok(v as u32),
        None => Err(invalid_value(line, text)),
    }
}

/// Splits AIR attributes into the height code before the last character and
/// the color that the last character names, `N` or `I`.
pub fn air_color_suffix(line: usize, attributes: &str) -> (result: Result<(String, AirColor), UgcError>)
    requires
        attributes@.len() > 0,
        (attributes@.last() as u32) < 128,
    ensures
        attributes@.last() == 'N' ==> (result matches Ok((h, c)) && h@ == attributes@.drop_last() && c
            == AirColor::Normal),
        attributes@.last() == 'I' ==> (result matches Ok((h, c)) && h@ == attributes@.drop_last() && c
            == AirColor::Inverted),
        attributes@.last() != 'N' && attributes@.last() != 'I' ==> rejects_value(result, line, attributes@),
{
    let chars = chars_of(attributes);
    let last = chars[chars.len() - 1];
    let color = if last == 'N' {
        AirColor::Normal
    } else if last == 'I' {
        AirColor::Inverted
    } else {
        return Err(invalid_value(line, attributes));
    };
    let mut height = String::new();
    let mut k: usize = 0;
    let end = chars.len() - 1;
    while k < end
        invariant
            chars@ == attributes@,
            chars@.len() > 0,
            end == chars@.len() - 1,
            k <= end,
            height@ == chars@.take(k as int),
        decreases chars@.len() - k,
    {
        height.push(chars[k]);
        k += 1;
        proof {
            assert(height@ =~= chars@.take(k as int));
        }
    }
    proof {
        assert(chars@.take(k as int) =~= chars@.drop_last());
    }
    Ok((height, color))
}

/// The two base-36 digits that write a raw AIR height of at most 1295.
pub open spec fn air_height_text(raw: nat) -> Seq<char> {
    seq![digit_byte(raw / 36) as char, digit_byte(raw % 36) as char]
}

/// Writes a raw AIR height as two base-36 digits.
pub fn encode_air_height_code(raw: u32) -> (text: String)
    requires
        raw <= 1295,
    ensures
        text@ == air_height_text(raw as nat),
{
    let mut text = String::new();
    text.push(digit_char((raw / 36) as u8));
    text.push(digit_char((raw % 36) as u8));
    proof {
        assert(text@ =~= air_height_text(raw as nat));
    }
    text
}

/// Writes a value below 36 as one lower-case base-36 digit.
pub fn encode_base36(value: u8) -> (c: char)
    requires
        value < 36,
    ensures
        c == digit_byte(value as nat) as char,
{
    digit_char(value)
}

/// The UGC letter of a slide point kind; invisible points cannot be written.
pub open spec fn slide_point_letter(kind: SlidePointKind) -> Option<char> {
    match kind {
        SlidePointKind::Visible => Some('s'),
        SlidePointKind::Control => Some('c'),
        SlidePointKind::Invisible => None,
    }
}

/// Writes a slide point kind as its UGC letter.
pub fn encode_slide_point_marker(kind: SlidePointKind) -> (result: Result<char, UgcError>)
    ensures
        match slide_point_letter(kind) {
            Some(c) => result == Ok::<char, UgcError>(c),
            None => (result matches Err(UgcError::UnsupportedNote { note }) && note@ == "invisible slide point"@),
        },
{
    match kind {
        SlidePointKind::Visible => Ok('s'),
        SlidePointKind::Control => Ok('c'),
        SlidePointKind::Invisible => Err(unsupported_note("invisible slide point")),
    }
}

/// The slider lane as a start and a width; side lanes cannot be written.
pub fn central_lane(lane: Lane) -> (result: Result<(u8, u8), UgcError>)
    ensures
        match lane {
            Lane::Slider { start, width } => result == Ok::<(u8, u8), UgcError>((start, width)),
            Lane::Side(_) => (result matches Err(UgcError::UnsupportedNote { note }) && note@ == "side lane"@),
        },
{
    match lane {
        Lane::Slider { start, width } => Ok((start, width)),
        Lane::Side(_) => Err(unsupported_note("side lane")),
    }
}

/// Whether an AIR direction is one of the diagonals that XLAIR plays on a
/// side button.
pub open spec fn is_xlair_side_air_direction_spec(direction: AirDirection) -> bool {
    direction is UpperLeft || direction is UpperRight || direction is LowerLeft || direction is LowerRight
}

/// Whether an AIR direction is one of the diagonals.
pub fn is_xlair_side_air_direction(direction: AirDirection) -> (side: bool)
    ensures
        side == is_xlair_side_air_direction_spec(direction),
{
    match direction {
        AirDirection::UpperLeft | AirDirection::UpperRight | AirDirection::LowerLeft | AirDirection::LowerRight => true,
        _ => false,
    }
}

/// Ticks at the UGC output resolution of 480 ticks per beat.
pub open spec fn ugc_ticks(position: Position) -> Option<nat> {
    let scaled = position.num() * 480;
    if scaled % position.den() == 0 && scaled / position.den() <= u64::MAX {
        Some(scaled / position.den())
    } else {
        None
    }
}

/// The absolute tick of a position at 480 ticks per beat.
pub fn absolute_tick(position: Position) -> (result: Result<u64, UgcError>)
    ensures
        match ugc_ticks(position) {
            Some(t) => result == Ok::<u64, UgcError>(t as u64),
            None => result == Err::<u64, UgcError>(UgcError::UnrepresentablePosition),
        },
{
    let numerator = position.numerator() as u128;
    let denominator = position.denominator() as u128;
    let ticks = numerator * 480;
    if ticks % denominator != 0 {
        return Err(UgcError::UnrepresentablePosition);
    }
    let whole = ticks / denominator;
    if whole > u64::MAX as u128 {
        return Err(UgcError::UnrepresentablePosition);
    }
    Ok(whole as u64)
}

/// The ticks from `start` to `end` at 480 ticks per beat.
pub fn relative_tick(start: Position, end: Position) -> (result: Result<u64, UgcError>)
    ensures
        match (ugc_ticks(start), ugc_ticks(end)) {
            (Some(s), Some(e)) => if s <= e {
                result == Ok::<u64, UgcError>((e - s) as u64)
            } else {
                result == Err::<u64, UgcError>(UgcError::UnrepresentablePosition)
            },
            _ => result == Err::<u64, UgcError>(UgcError::UnrepresentablePosition),
        },
{
    let start = absolute_tick(start)?;
    let end = absolute_tick(end)?;
    match end.checked_sub(start) {
        Some(t) => Ok(t),
        None => Err(UgcError::UnrepresentablePosition),
    }
}

/// The measure and tick, at 480 ticks per beat, at which a position is written.
pub fn output_position(position: Position, timeline: &MeasureTimeline) -> (result: Result<(u32, u64), UgcError>)
    ensures
        match timeline.locate_spec(position, 480) {
            Ok(location) => result == Ok::<(u32, u64), UgcError>(location),
            Err(_) => result == Err::<(u32, u64), UgcError>(UgcError::UnrepresentablePosition),
        },
{
    match timeline.locate(position, 480) {
        Ok(location) => Ok(location),
        Err(_) => Err(UgcError::UnrepresentablePosition),
    }
}

/// The speed group a `@USETIL` value selects; zero selects none.
pub fn speed_group(group: u32) -> (selected: Option<u32>)
    ensures
        group == 0 ==> selected is None,
        group != 0 ==> selected == Some(group),
{
    if group != 0 {
        Some(group)
    } else {
        None
    }
}

/// Where `tick` ticks into `measure` lies at `ticks_per_beat` ticks per beat,
/// one measure later when the chart's measures are offset by one (the start
/// of measure one is added), or `None` when a measure's ticks overflow.
pub open spec fn note_position_spec(
    timeline: MeasureTimeline,
    ticks_per_beat: nat,
    offset_measure: bool,
    measure: nat,
    tick: nat,
) -> Option<Result<Position, ChartError>> {
    let ticks_per_measure = ticks_per_beat * 4;
    if ticks_per_measure > u64::MAX {
        None
    } else {
        match timeline.position_spec(measure, tick, ticks_per_measure) {
            Err(error) => Some(Err(error)),
            Ok(position) => if !offset_measure {
                Some(Ok(position))
            } else {
                match timeline.position_spec(1, 0, ticks_per_measure) {
                    Err(error) => Some(Err(error)),
                    Ok(offset) => Some(sum(position, offset)),
                }
            },
        }
    }
}

/// The absolute position of a note's measure and tick.
pub fn note_position(
    timeline: &MeasureTimeline,
    ticks_per_beat: u64,
    offset_measure: bool,
    line: usize,
    measure: u32,
    tick: u64,
) -> (result: Result<Position, UgcError>)
    ensures
        match note_position_spec(*timeline, ticks_per_beat as nat, offset_measure, measure as nat, tick as nat) {
            None => rejects_value(result, line, ascii_chars(digits_of(ticks_per_beat as nat, 10))),
            Some(Ok(p)) => result == Ok::<Position, UgcError>(p),
            Some(Err(source)) => result == Err::<Position, UgcError>(UgcError::Chart { line, source }),
        },
{
    let ticks_per_measure = match ticks_per_beat.checked_mul(4) {
        Some(t) => t,
        None => return Err(UgcError::InvalidValue { line, value: crate::text::decimal(ticks_per_beat) }),
    };
    let position = match timeline.position(measure, tick, ticks_per_measure) {
        Ok(p) => p,
        Err(source) => return Err(UgcError::Chart { line, source }),
    };
    if !offset_measure {
        return Ok(position);
    }
    let offset = match timeline.position(1, 0, ticks_per_measure) {
        Ok(p) => p,
        Err(source) => return Err(UgcError::Chart { line, source }),
    };
    match position.checked_add(offset) {
        Ok(p) => Ok(p),
        Err(source) => Err(UgcError::Chart { line, source }),
    }
}

/// The measure and length a `@BEAT` value `measure numerator denominator`
/// sets: the meter in beats, four quarter beats to the whole.
pub fn beat_length(line: usize, value: &str) -> (result: Result<(u32, Position), UgcError>)
    ensures
        words_spec(value@).len() != 3 ==> result == Err::<(u32, Position), UgcError>(
            UgcError::MalformedRecord { line },
        ),
        words_spec(value@).len() == 3 ==> ({
            let w = words_spec(value@);
            match (
                decimal_value(w[0], u32::MAX as nat),
                decimal_value(w[1], u64::MAX as nat),
                decimal_value(w[2], u64::MAX as nat),
            ) {
                (None, _, _) => rejects_value(result, line, w[0]),
                (Some(_), None, _) => rejects_value(result, line, w[1]),
                (Some(_), Some(_), None) => rejects_value(result, line, w[2]),
                (Some(m), Some(n), Some(d)) => if n == 0 || d == 0 || n * 4 > u64::MAX {
                    rejects_value(result, line, value@)
                } else {
                    result == Ok::<(u32, Position), UgcError>((m as u32, Position::from_fraction(n * 4, d)))
                },
            }
        }),
{
    let fields = words(value);
    if fields.len() != 3 {
        return Err(UgcError::MalformedRecord { line });
    }
    proof {
        assert(fields@[0]@ == texts(fields@)[0]);
        assert(fields@[1]@ == texts(fields@)[1]);
        assert(fields@[2]@ == texts(fields@)[2]);
    }
    let measure = parse_u32(line, fields[0].as_str())?;
    let numerator = parse_u64(line, fields[1].as_str())?;
    let denominator = parse_u64(line, fields[2].as_str())?;
    if numerator == 0 || denominator == 0 {
        return Err(invalid_value(line, value));
    }
    let scaled = match numerator.checked_mul(4) {
        Some(v) => v,
        None => return Err(invalid_value(line, value)),
    };
    match Position::new(scaled, denominator) {
        Ok(length) => Ok((measure, length)),
        Err(source) => Err(UgcError::Chart { line, source }),
    }
}

/// Reads a `@FLAG` value `name value`: the measure-offset flag when the name
/// is `SOFFSET`, nothing for any other flag.
pub fn offset_flag(line: usize, value: &str) -> (result: Result<Option<bool>, UgcError>)
    ensures
        words_spec(value@).len() != 2 ==> result == Err::<Option<bool>, UgcError>(UgcError::MalformedRecord { line }),
        words_spec(value@).len() == 2 && words_spec(value@)[0] != "SOFFSET"@ ==> result == Ok::<
            Option<bool>,
            UgcError,
        >(None),
        words_spec(value@).len() == 2 && words_spec(value@)[0] == "SOFFSET"@ ==> match bool_code(
            words_spec(value@)[1],
        ) {
            Some(b) => result == Ok::<Option<bool>, UgcError>(Some(b)),
            None => rejects_value(result, line, words_spec(value@)[1]),
        },
{
    let fields = words(value);
    if fields.len() != 2 {
        return Err(UgcError::MalformedRecord { line });
    }
    proof {
        assert(fields@[0]@ == texts(fields@)[0]);
        assert(fields@[1]@ == texts(fields@)[1]);
    }
    if text_is(fields[0].as_str(), "SOFFSET") {
        let flag = parse_bool(line, fields[1].as_str())?;
        Ok(Some(flag))
    } else {
        Ok(None)
    }
}

/// The resolution a `@TICKS` header sets: ticks per beat, never zero.
pub fn ticks_per_beat(line: usize, value: &str) -> (result: Result<u64, UgcError>)
    ensures
        match decimal_value(value@, u64::MAX as nat) {
            Some(t) => if t == 0 {
                rejects_value(result, line, value@)
            } else {
                result == Ok::<u64, UgcError>(t as u64)
            },
            None => rejects_value(result, line, value@),
        },
{
    let ticks = parse_u64(line, value)?;
    if ticks == 0 {
        return Err(invalid_value(line, value));
    }
    Ok(ticks)
}

/// The UGC header and directive records that carry chart information.
#[derive(Clone, Copy, Debug, PartialEq, Eq, Structural)]
pub enum UgcRecord {
    Ticks,
    MainBpm,
    Flag,
    SpeedDefinition,
    Beat,
    Tempo,
    GroupSpeed,
    GlobalSpeed,
    MainSpeedGroup,
    UseSpeedGroup,
}

/// The record a header tag introduces.
pub open spec fn header_kind_spec(tag: Seq<char>) -> Option<UgcRecord> {
    if tag == "@TICKS"@ {
        Some(UgcRecord::Ticks)
    } else if tag == "@MAINBPM"@ {
        Some(UgcRecord::MainBpm)
    } else if tag == "@FLAG"@ {
        Some(UgcRecord::Flag)
    } else if tag == "@SPDDEF"@ || tag == "@SPDFLD"@ {
        Some(UgcRecord::SpeedDefinition)
    } else if tag == "@BEAT"@ {
        Some(UgcRecord::Beat)
    } else if tag == "@BPM"@ {
        Some(UgcRecord::Tempo)
    } else if tag == "@TIL"@ {
        Some(UgcRecord::GroupSpeed)
    } else if tag == "@SPDMOD"@ {
        Some(UgcRecord::GlobalSpeed)
    } else if tag == "@MAINTIL"@ {
        Some(UgcRecord::MainSpeedGroup)
    } else if tag == "@USETIL"@ {
        Some(UgcRecord::UseSpeedGroup)
    } else {
        None
    }
}

/// The record a header tag introduces, or `None` for a tag that is ignored.
pub fn header_kind(tag: &str) -> (kind: Option<UgcRecord>)
    ensures
        kind == header_kind_spec(tag@),
{
    if text_is(tag, "@TICKS") {
        Some(UgcRecord::Ticks)
    } else if text_is(tag, "@MAINBPM") {
        Some(UgcRecord::MainBpm)
    } else if text_is(tag, "@FLAG") {
        Some(UgcRecord::Flag)
    } else if text_is(tag, "@SPDDEF") || text_is(tag, "@SPDFLD") {
        Some(UgcRecord::SpeedDefinition)
    } else if text_is(tag, "@BEAT") {
        Some(UgcRecord::Beat)
    } else if text_is(tag, "@BPM") {
        Some(UgcRecord::Tempo)
    } else if text_is(tag, "@TIL") {
        Some(UgcRecord::GroupSpeed)
    } else if text_is(tag, "@SPDMOD") {
        Some(UgcRecord::GlobalSpeed)
    } else if text_is(tag, "@MAINTIL") {
        Some(UgcRecord::MainSpeedGroup)
    } else if text_is(tag, "@USETIL") {
        Some(UgcRecord::UseSpeedGroup)
    } else {
        None
    }
}

/// The records a directive among the notes can carry: speed changes and the
/// speed-group selection; a speed definition is refused and any other tag
/// ignored.
pub open spec fn directive_kind_spec(tag: Seq<char>) -> Option<UgcRecord> {
    match header_kind_spec(tag) {
        Some(UgcRecord::GroupSpeed) => Some(UgcRecord::GroupSpeed),
        Some(UgcRecord::GlobalSpeed) => Some(UgcRecord::GlobalSpeed),
        Some(UgcRecord::UseSpeedGroup) => Some(UgcRecord::UseSpeedGroup),
        Some(UgcRecord::SpeedDefinition) => Some(UgcRecord::SpeedDefinition),
        _ => None,
    }
}

/// The record a directive tag introduces among the notes.
pub fn directive_kind(tag: &str) -> (kind: Option<UgcRecord>)
    ensures
        kind == directive_kind_spec(tag@),
{
    match header_kind(tag) {
        Some(UgcRecord::GroupSpeed) => Some(UgcRecord::GroupSpeed),
        Some(UgcRecord::GlobalSpeed) => Some(UgcRecord::GlobalSpeed),
        Some(UgcRecord::UseSpeedGroup) => Some(UgcRecord::UseSpeedGroup),
        Some(UgcRecord::SpeedDefinition) => Some(UgcRecord::SpeedDefinition),
        _ => None,
    }
}

/// The refusal of a record that this reader does not support.
pub fn unsupported_record(line: usize, record: &str) -> (error: UgcError)
    ensures
        error matches UgcError::UnsupportedRecord { line: l, record: r } && l == line && r@ == record@,
{
    UgcError::UnsupportedRecord { line, record: record.to_owned() }
}

/// A position that UGC writes is read back where the measure that holds it
/// has four beats: the measure and tick at 480 ticks per beat that locating
/// it gives, read at 480 ticks per beat without the measure offset, are that
/// position again, wherever the arithmetic of that reading fits in 64 bits.
pub proof fn lemma_ugc_position_reads_back(timeline: MeasureTimeline, position: Position)
    requires
        timeline.wf(),
        position.wf(),
        timeline.locate_spec(position, 480) is Ok,
        timeline.length_at_spec(timeline.locate_spec(position, 480)->Ok_0.0 as nat) == Position::from_fraction(4, 1),
        note_position_spec(
            timeline,
            480,
            false,
            timeline.locate_spec(position, 480)->Ok_0.0 as nat,
            timeline.locate_spec(position, 480)->Ok_0.1 as nat,
        ) matches Some(Ok(_)),
    ensures
        note_position_spec(
            timeline,
            480,
            false,
            timeline.locate_spec(position, 480)->Ok_0.0 as nat,
            timeline.locate_spec(position, 480)->Ok_0.1 as nat,
        ) == Some(Ok::<Position, ChartError>(position)),
{
    let (measure, tick) = timeline.locate_spec(position, 480)->Ok_0;
    crate::position::lemma_whole_beats(4);
    assert(timeline.ticks_spec(measure as nat, 480) == Ok::<nat, ChartError>(1920));
    timeline.lemma_located_position_reads_back(position, 480);
}

} // verus!
