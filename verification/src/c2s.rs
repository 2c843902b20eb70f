//! The C2S chart format: its errors, codes, positions and slide records.

use vstd::prelude::*;
use vstd::string::{StringExecFns, StringSliceAdditionalSpecFns};

use crate::error::ChartError;
use crate::note::{AirColor, AirCrushColor, AirDirection, ExDirection, Lane, SlidePoint, SlidePointKind};
use crate::position::Position;
use crate::text::{ascii_chars, digits_of, line_prefix, line_text, parse_unsigned, parse_unsigned_spec, push_digits, push_quoted, quoted, text_is};

verus! {

/// Why a C2S document could not be read or written.
#[derive(Debug, PartialEq)]
pub enum C2sError {
    MalformedRecord { line: usize },
    InvalidValue { line: usize, value: String },
    UnsupportedRecord { line: usize, record: String },
    Chart { line: usize, source: ChartError },
    MissingResolution,
    UnrepresentablePosition,
}

impl C2sError {
    /// The sentence that describes the error.
    pub open spec fn text(&self) -> Seq<char> {
        match self {
            C2sError::MalformedRecord { line } => line_text(*line as nat) + "malformed record"@,
            C2sError::InvalidValue { line, value } => line_text(*line as nat) + "invalid value "@ + quoted(value@),
            C2sError::UnsupportedRecord { line, record } => line_text(*line as nat) + "unsupported record "@ + quoted(record@),
            C2sError::Chart { line, source } => line_text(*line as nat) + source.text(),
            C2sError::MissingResolution => "the RESOLUTION header is missing"@,
            C2sError::UnrepresentablePosition => "position cannot be represented at the C2S resolution"@,
        }
    }

    /// The sentence that describes the error.
    pub fn message(&self) -> (text: String)
        ensures
            text@ == self.text(),
    {
        match self {
            C2sError::MalformedRecord { line } => {
                let mut text = line_prefix(*line);
                text.append("malformed record");
                text
            },
            C2sError::InvalidValue { line, value } => {
                let mut text = line_prefix(*line);
                text.append("invalid value ");
                push_quoted(&mut text, value.as_str());
                text
            },
            C2sError::UnsupportedRecord { line, record } => {
                let mut text = line_prefix(*line);
                text.append("unsupported record ");
                push_quoted(&mut text, record.as_str());
                text
            },
            C2sError::Chart { line, source } => {
                let mut text = line_prefix(*line);
                text.append(source.message());
                text
            },
            C2sError::MissingResolution => String::from_str("the RESOLUTION header is missing"),
            C2sError::UnrepresentablePosition => String::from_str(
                "position cannot be represented at the C2S resolution",
            ),
        }
    }
}

/// The error for an invalid value on a line.
pub fn invalid_value(line: usize, value: &str) -> (error: C2sError)
    ensures
        error matches C2sError::InvalidValue { line: l, value: v } && l == line && v@ == value@,
{
    C2sError::InvalidValue { line, value: value.to_owned() }
}

/// The error for chart information that C2S cannot represent.
pub fn unsupported(record: &str) -> (error: C2sError)
    ensures
        error matches C2sError::UnsupportedRecord { line: l, record: r } && l == 0 && r@ == record@,
{
    C2sError::UnsupportedRecord { line: 0, record: record.to_owned() }
}

/// Errors that only mean some chart information cannot be written.
pub open spec fn is_loss_spec(error: &C2sError) -> bool {
    error is UnsupportedRecord || error is UnrepresentablePosition
}

/// Whether the error only means that some chart information cannot be written.
pub fn is_loss(error: &C2sError) -> (loss: bool)
    ensures
        loss == is_loss_spec(error),
{
    match error {
        C2sError::UnsupportedRecord { .. } | C2sError::UnrepresentablePosition => true,
        _ => false,
    }
}

/// The Ex direction a C2S direction code names.
pub open spec fn ex_direction_code(value: Seq<char>) -> Option<ExDirection> {
    if value == "UP"@ {
        Some(ExDirection::Up)
    } else if value == "DW"@ {
        Some(ExDirection::Down)
    } else if value == "CE"@ {
        Some(ExDirection::Center)
    } else if value == "RC"@ || value == "ALL"@ {
        Some(ExDirection::All)
    } else if value == "LC"@ || value == "VLT"@ {
        Some(ExDirection::Wide)
    } else if value == "LS"@ || value == "L"@ {
        Some(ExDirection::Left)
    } else if value == "RS"@ || value == "R"@ {
        Some(ExDirection::Right)
    } else if value == "BS"@ || value == "IN"@ || value == "I"@ {
        Some(ExDirection::Inward)
    } else {
        None
    }
}

/// Reads a C2S Ex direction code.
pub fn parse_ex_direction(line: usize, value: &str) -> (result: Result<ExDirection, C2sError>)
    ensures
        match ex_direction_code(value@) {
            Some(found) => result == Ok::<ExDirection, C2sError>(found),
            None => result matches Err(C2sError::InvalidValue { line: l, value: v }) && l == line && v@ == value@,
        },
{
    if text_is(value, "UP") {
        Ok(ExDirection::Up)
    } else if text_is(value, "DW") {
        Ok(ExDirection::Down)
    } else if text_is(value, "CE") {
        Ok(ExDirection::Center)
    } else if text_is(value, "RC") || text_is(value, "ALL") {
        Ok(ExDirection::All)
    } else if text_is(value, "LC") || text_is(value, "VLT") {
        Ok(ExDirection::Wide)
    } else if text_is(value, "LS") || text_is(value, "L") {
        Ok(ExDirection::Left)
    } else if text_is(value, "RS") || text_is(value, "R") {
        Ok(ExDirection::Right)
    } else if text_is(value, "BS") || text_is(value, "IN") || text_is(value, "I") {
        Ok(ExDirection::Inward)
    } else {
        Err(invalid_value(line, value))
    }
}

/// The AIR direction a C2S AIR record name gives.
pub open spec fn air_direction_code(value: Seq<char>) -> Option<AirDirection> {
    if value == "AIR"@ {
        Some(AirDirection::Up)
    } else if value == "AUR"@ {
        Some(AirDirection::UpperRight)
    } else if value == "AUL"@ {
        Some(AirDirection::UpperLeft)
    } else if value == "ADW"@ {
        Some(AirDirection::Down)
    } else if value == "ADR"@ {
        Some(AirDirection::LowerRight)
    } else if value == "ADL"@ {
        Some(AirDirection::LowerLeft)
    } else {
        None
    }
}

/// Reads a C2S AIR record name as its direction.
pub fn parse_air_direction(line: usize, value: &str) -> (result: Result<AirDirection, C2sError>)
    ensures
        match air_direction_code(value@) {
            Some(found) => result == Ok::<AirDirection, C2sError>(found),
            None => result matches Err(C2sError::InvalidValue { line: l, value: v }) && l == line && v@ == value@,
        },
{
    if text_is(value, "AIR") {
        Ok(AirDirection::Up)
    } else if text_is(value, "AUR") {
        Ok(AirDirection::UpperRight)
    } else if text_is(value, "AUL") {
        Ok(AirDirection::UpperLeft)
    } else if text_is(value, "ADW") {
        Ok(AirDirection::Down)
    } else if text_is(value, "ADR") {
        Ok(AirDirection::LowerRight)
    } else if text_is(value, "ADL") {
        Ok(AirDirection::LowerLeft)
    } else {
        Err(invalid_value(line, value))
    }
}

/// The AIR color a C2S color code names.
pub open spec fn air_color_code(value: Seq<char>) -> Option<AirColor> {
    if value == "DEF"@ {
        Some(AirColor::Normal)
    } else if value == "GRN"@ || value == "PPL"@ {
        Some(AirColor::Inverted)
    } else {
        None
    }
}

/// Reads a C2S AIR color code.
pub fn parse_air_color(line: usize, value: &str) -> (result: Result<AirColor, C2sError>)
    ensures
        match air_color_code(value@) {
            Some(found) => result == Ok::<AirColor, C2sError>(found),
            None => result matches Err(C2sError::InvalidValue { line: l, value: v }) && l == line && v@ == value@,
        },
{
    if text_is(value, "DEF") {
        Ok(AirColor::Normal)
    } else if text_is(value, "GRN") || text_is(value, "PPL") {
        Ok(AirColor::Inverted)
    } else {
        Err(invalid_value(line, value))
    }
}

/// The AIR Crush color a C2S color code names.
pub open spec fn air_crush_color_code(value: Seq<char>) -> Option<AirCrushColor> {
    if value == "DEF"@ {
        Some(AirCrushColor::Normal)
    } else if value == "NON"@ {
        Some(AirCrushColor::Transparent)
    } else if value == "RED"@ {
        Some(AirCrushColor::Red)
    } else if value == "ORN"@ {
        Some(AirCrushColor::Orange)
    } else if value == "YEL"@ {
        Some(AirCrushColor::Yellow)
    } else if value == "LIM"@ {
        Some(AirCrushColor::Lime)
    } else if value == "GRN"@ {
        Some(AirCrushColor::Green)
    } else if value == "AQA"@ {
        Some(AirCrushColor::Aqua)
    } else if value == "CYN"@ {
        Some(AirCrushColor::Cyan)
    } else if value == "DGR"@ {
        Some(AirCrushColor::DarkBlue)
    } else if value == "BLU"@ {
        Some(AirCrushColor::Blue)
    } else if value == "VLT"@ {
        Some(AirCrushColor::Violet)
    } else if value == "PPL"@ {
        Some(AirCrushColor::Purple)
    } else if value == "PNK"@ {
        Some(AirCrushColor::Pink)
    } else if value == "GRY"@ {
        Some(AirCrushColor::Gray)
    } else if value == "BLK"@ {
        Some(AirCrushColor::Black)
    } else {
        None
    }
}

/// Reads a C2S AIR Crush color code.
pub fn parse_air_crush_color(line: usize, value: &str) -> (result: Result<AirCrushColor, C2sError>)
    ensures
        match air_crush_color_code(value@) {
            Some(found) => result == Ok::<AirCrushColor, C2sError>(found),
            None => result matches Err(C2sError::InvalidValue { line: l, value: v }) && l == line && v@ == value@,
        },
{
    if text_is(value, "DEF") {
        Ok(AirCrushColor::Normal)
    } else if text_is(value, "NON") {
        Ok(AirCrushColor::Transparent)
    } else if text_is(value, "RED") {
        Ok(AirCrushColor::Red)
    } else if text_is(value, "ORN") {
        Ok(AirCrushColor::Orange)
    } else if text_is(value, "YEL") {
        Ok(AirCrushColor::Yellow)
    } else if text_is(value, "LIM") {
        Ok(AirCrushColor::Lime)
    } else if text_is(value, "GRN") {
        Ok(AirCrushColor::Green)
    } else if text_is(value, "AQA") {
        Ok(AirCrushColor::Aqua)
    } else if text_is(value, "CYN") {
        Ok(AirCrushColor::Cyan)
    } else if text_is(value, "DGR") {
        Ok(AirCrushColor::DarkBlue)
    } else if text_is(value, "BLU") {
        Ok(AirCrushColor::Blue)
    } else if text_is(value, "VLT") {
        Ok(AirCrushColor::Violet)
    } else if text_is(value, "PPL") {
        Ok(AirCrushColor::Purple)
    } else if text_is(value, "PNK") {
        Ok(AirCrushColor::Pink)
    } else if text_is(value, "GRY") {
        Ok(AirCrushColor::Gray)
    } else if text_is(value, "BLK") {
        Ok(AirCrushColor::Black)
    } else {
        Err(invalid_value(line, value))
    }
}

/// The C2S code of an Ex direction, if C2S has one.
pub open spec fn ex_direction_text(value: ExDirection) -> Option<Seq<char>> {
    match value {
        ExDirection::Up => Some("UP"@),
        ExDirection::Down => Some("DW"@),
        ExDirection::Center => Some("CE"@),
        ExDirection::All => Some("RC"@),
        ExDirection::Wide => Some("LC"@),
        ExDirection::Left => Some("LS"@),
        ExDirection::Right => Some("RS"@),
        ExDirection::Inward => Some("BS"@),
        ExDirection::UpperLeft | ExDirection::UpperRight | ExDirection::LowerLeft | ExDirection::LowerRight => None,
    }
}

/// Writes an Ex direction as its C2S code; C2S has no diagonal directions.
pub fn encode_ex_direction(value: ExDirection) -> (result: Result<&'static str, C2sError>)
    ensures
        match ex_direction_text(value) {
            Some(text) => result matches Ok(t) && t@ == text,
            None => (result matches Err(C2sError::UnsupportedRecord { line, record }) && line == 0 && record@ == "diagonal Ex direction"@),
        },
{
    match value {
        ExDirection::Up => Ok("UP"),
        ExDirection::Down => Ok("DW"),
        ExDirection::Center => Ok("CE"),
        ExDirection::All => Ok("RC"),
        ExDirection::Wide => Ok("LC"),
        ExDirection::Left => Ok("LS"),
        ExDirection::Right => Ok("RS"),
        ExDirection::Inward => Ok("BS"),
        ExDirection::UpperLeft | ExDirection::UpperRight | ExDirection::LowerLeft | ExDirection::LowerRight => Err(unsupported("diagonal Ex direction")),
    }
}

/// The C2S AIR record name of a direction.
pub open spec fn air_direction_text(value: AirDirection) -> Seq<char> {
    match value {
        AirDirection::Up => "AIR"@,
        AirDirection::UpperRight => "AUR"@,
        AirDirection::UpperLeft => "AUL"@,
        AirDirection::Down => "ADW"@,
        AirDirection::LowerRight => "ADR"@,
        AirDirection::LowerLeft => "ADL"@,
    }
}

/// Writes an AIR direction as its C2S record name.
pub fn encode_air_direction(value: AirDirection) -> (text: &'static str)
    ensures
        text@ == air_direction_text(value),
{
    match value {
        AirDirection::Up => "AIR",
        AirDirection::UpperRight => "AUR",
        AirDirection::UpperLeft => "AUL",
        AirDirection::Down => "ADW",
        AirDirection::LowerRight => "ADR",
        AirDirection::LowerLeft => "ADL",
    }
}

/// The C2S code of an AIR color.
pub open spec fn air_color_text(value: AirColor) -> Seq<char> {
    match value {
        AirColor::Normal => "DEF"@,
        AirColor::Inverted => "PPL"@,
    }
}

/// Writes an AIR color as its C2S code.
pub fn encode_air_color(value: AirColor) -> (text: &'static str)
    ensures
        text@ == air_color_text(value),
{
    match value {
        AirColor::Normal => "DEF",
        AirColor::Inverted => "PPL",
    }
}

/// The C2S code of an AIR Crush color.
pub open spec fn air_crush_color_text(value: AirCrushColor) -> Seq<char> {
    match value {
        AirCrushColor::Normal => "DEF"@,
        AirCrushColor::Transparent => "NON"@,
        AirCrushColor::Red => "RED"@,
        AirCrushColor::Orange => "ORN"@,
        AirCrushColor::Yellow => "YEL"@,
        AirCrushColor::Lime => "LIM"@,
        AirCrushColor::Green => "GRN"@,
        AirCrushColor::Aqua => "AQA"@,
        AirCrushColor::Cyan => "CYN"@,
        AirCrushColor::DarkBlue => "DGR"@,
        AirCrushColor::Blue => "BLU"@,
        AirCrushColor::Violet => "VLT"@,
        AirCrushColor::Purple => "PPL"@,
        AirCrushColor::Pink => "PNK"@,
        AirCrushColor::Gray => "GRY"@,
        AirCrushColor::Black => "BLK"@,
    }
}

/// Writes an AIR Crush color as its C2S code.
pub fn encode_air_crush_color(value: AirCrushColor) -> (text: &'static str)
    ensures
        text@ == air_crush_color_text(value),
{
    match value {
        AirCrushColor::Normal => "DEF",
        AirCrushColor::Transparent => "NON",
        AirCrushColor::Red => "RED",
        AirCrushColor::Orange => "ORN",
        AirCrushColor::Yellow => "YEL",
        AirCrushColor::Lime => "LIM",
        AirCrushColor::Green => "GRN",
        AirCrushColor::Aqua => "AQA",
        AirCrushColor::Cyan => "CYN",
        AirCrushColor::DarkBlue => "DGR",
        AirCrushColor::Blue => "BLU",
        AirCrushColor::Violet => "VLT",
        AirCrushColor::Purple => "PPL",
        AirCrushColor::Pink => "PNK",
        AirCrushColor::Gray => "GRY",
        AirCrushColor::Black => "BLK",
    }
}

/// Every Ex direction that C2S can write is read back unchanged.
pub proof fn lemma_ex_direction_round_trip(value: ExDirection)
    ensures
        ex_direction_text(value) matches Some(text) ==> ex_direction_code(text) == Some(value),
{
    reveal_strlit("UP");
    reveal_strlit("DW");
    reveal_strlit("CE");
    reveal_strlit("RC");
    reveal_strlit("ALL");
    reveal_strlit("LC");
    reveal_strlit("VLT");
    reveal_strlit("LS");
    reveal_strlit("L");
    reveal_strlit("RS");
    reveal_strlit("R");
    reveal_strlit("BS");
    reveal_strlit("IN");
    reveal_strlit("I");
    assert("UP"@ != "DW"@) by { assert("UP"@[0] != "DW"@[0]); }
    assert("UP"@ != "CE"@) by { assert("UP"@[0] != "CE"@[0]); }
    assert("UP"@ != "RC"@) by { assert("UP"@[0] != "RC"@[0]); }
    assert("UP"@ != "ALL"@) by { assert("UP"@.len() != "ALL"@.len()); }
    assert("UP"@ != "LC"@) by { assert("UP"@[0] != "LC"@[0]); }
    assert("UP"@ != "VLT"@) by { assert("UP"@.len() != "VLT"@.len()); }
    assert("UP"@ != "LS"@) by { assert("UP"@[0] != "LS"@[0]); }
    assert("UP"@ != "L"@) by { assert("UP"@.len() != "L"@.len()); }
    assert("UP"@ != "RS"@) by { assert("UP"@[0] != "RS"@[0]); }
    assert("UP"@ != "R"@) by { assert("UP"@.len() != "R"@.len()); }
    assert("UP"@ != "BS"@) by { assert("UP"@[0] != "BS"@[0]); }
    assert("UP"@ != "IN"@) by { assert("UP"@[0] != "IN"@[0]); }
    assert("UP"@ != "I"@) by { assert("UP"@.len() != "I"@.len()); }
    assert("DW"@ != "UP"@) by { assert("DW"@[0] != "UP"@[0]); }
    assert("DW"@ != "CE"@) by { assert("DW"@[0] != "CE"@[0]); }
    assert("DW"@ != "RC"@) by { assert("DW"@[0] != "RC"@[0]); }
    assert("DW"@ != "ALL"@) by { assert("DW"@.len() != "ALL"@.len()); }
    assert("DW"@ != "LC"@) by { assert("DW"@[0] != "LC"@[0]); }
    assert("DW"@ != "VLT"@) by { assert("DW"@.len() != "VLT"@.len()); }
    assert("DW"@ != "LS"@) by { assert("DW"@[0] != "LS"@[0]); }
    assert("DW"@ != "L"@) by { assert("DW"@.len() != "L"@.len()); }
    assert("DW"@ != "RS"@) by { assert("DW"@[0] != "RS"@[0]); }
    assert("DW"@ != "R"@) by { assert("DW"@.len() != "R"@.len()); }
    assert("DW"@ != "BS"@) by { assert("DW"@[0] != "BS"@[0]); }
    assert("DW"@ != "IN"@) by { assert("DW"@[0] != "IN"@[0]); }
    assert("DW"@ != "I"@) by { assert("DW"@.len() != "I"@.len()); }
    assert("CE"@ != "UP"@) by { assert("CE"@[0] != "UP"@[0]); }
    assert("CE"@ != "DW"@) by { assert("CE"@[0] != "DW"@[0]); }
    assert("CE"@ != "RC"@) by { assert("CE"@[0] != "RC"@[0]); }
    assert("CE"@ != "ALL"@) by { assert("CE"@.len() != "ALL"@.len()); }
    assert("CE"@ != "LC"@) by { assert("CE"@[0] != "LC"@[0]); }
    assert("CE"@ != "VLT"@) by { assert("CE"@.len() != "VLT"@.len()); }
    assert("CE"@ != "LS"@) by { assert("CE"@[0] != "LS"@[0]); }
    assert("CE"@ != "L"@) by { assert("CE"@.len() != "L"@.len()); }
    assert("CE"@ != "RS"@) by { assert("CE"@[0] != "RS"@[0]); }
    assert("CE"@ != "R"@) by { assert("CE"@.len() != "R"@.len()); }
    assert("CE"@ != "BS"@) by { assert("CE"@[0] != "BS"@[0]); }
    assert("CE"@ != "IN"@) by { assert("CE"@[0] != "IN"@[0]); }
    assert("CE"@ != "I"@) by { assert("CE"@.len() != "I"@.len()); }
    assert("RC"@ != "UP"@) by { assert("RC"@[0] != "UP"@[0]); }
    assert("RC"@ != "DW"@) by { assert("RC"@[0] != "DW"@[0]); }
    assert("RC"@ != "CE"@) by { assert("RC"@[0] != "CE"@[0]); }
    assert("RC"@ != "ALL"@) by { assert("RC"@.len() != "ALL"@.len()); }
    assert("RC"@ != "LC"@) by { assert("RC"@[0] != "LC"@[0]); }
    assert("RC"@ != "VLT"@) by { assert("RC"@.len() != "VLT"@.len()); }
    assert("RC"@ != "LS"@) by { assert("RC"@[0] != "LS"@[0]); }
    assert("RC"@ != "L"@) by { assert("RC"@.len() != "L"@.len()); }
    assert("RC"@ != "RS"@) by { assert("RC"@[1] != "RS"@[1]); }
    assert("RC"@ != "R"@) by { assert("RC"@.len() != "R"@.len()); }
    assert("RC"@ != "BS"@) by { assert("RC"@[0] != "BS"@[0]); }
    assert("RC"@ != "IN"@) by { assert("RC"@[0] != "IN"@[0]); }
    assert("RC"@ != "I"@) by { assert("RC"@.len() != "I"@.len()); }
    assert("LC"@ != "UP"@) by { assert("LC"@[0] != "UP"@[0]); }
    assert("LC"@ != "DW"@) by { assert("LC"@[0] != "DW"@[0]); }
    assert("LC"@ != "CE"@) by { assert("LC"@[0] != "CE"@[0]); }
    assert("LC"@ != "RC"@) by { assert("LC"@[0] != "RC"@[0]); }
    assert("LC"@ != "ALL"@) by { assert("LC"@.len() != "ALL"@.len()); }
    assert("LC"@ != "VLT"@) by { assert("LC"@.len() != "VLT"@.len()); }
    assert("LC"@ != "LS"@) by { assert("LC"@[1] != "LS"@[1]); }
    assert("LC"@ != "L"@) by { assert("LC"@.len() != "L"@.len()); }
    assert("LC"@ != "RS"@) by { assert("LC"@[0] != "RS"@[0]); }
    assert("LC"@ != "R"@) by { assert("LC"@.len() != "R"@.len()); }
    assert("LC"@ != "BS"@) by { assert("LC"@[0] != "BS"@[0]); }
    assert("LC"@ != "IN"@) by { assert("LC"@[0] != "IN"@[0]); }
    assert("LC"@ != "I"@) by { assert("LC"@.len() != "I"@.len()); }
    assert("LS"@ != "UP"@) by { assert("LS"@[0] != "UP"@[0]); }
    assert("LS"@ != "DW"@) by { assert("LS"@[0] != "DW"@[0]); }
    assert("LS"@ != "CE"@) by { assert("LS"@[0] != "CE"@[0]); }
    assert("LS"@ != "RC"@) by { assert("LS"@[0] != "RC"@[0]); }
    assert("LS"@ != "ALL"@) by { assert("LS"@.len() != "ALL"@.len()); }
    assert("LS"@ != "LC"@) by { assert("LS"@[1] != "LC"@[1]); }
    assert("LS"@ != "VLT"@) by { assert("LS"@.len() != "VLT"@.len()); }
    assert("LS"@ != "L"@) by { assert("LS"@.len() != "L"@.len()); }
    assert("LS"@ != "RS"@) by { assert("LS"@[0] != "RS"@[0]); }
    assert("LS"@ != "R"@) by { assert("LS"@.len() != "R"@.len()); }
    assert("LS"@ != "BS"@) by { assert("LS"@[0] != "BS"@[0]); }
    assert("LS"@ != "IN"@) by { assert("LS"@[0] != "IN"@[0]); }
    assert("LS"@ != "I"@) by { assert("LS"@.len() != "I"@.len()); }
    assert("RS"@ != "UP"@) by { assert("RS"@[0] != "UP"@[0]); }
    assert("RS"@ != "DW"@) by { assert("RS"@[0] != "DW"@[0]); }
    assert("RS"@ != "CE"@) by { assert("RS"@[0] != "CE"@[0]); }
    assert("RS"@ != "RC"@) by { assert("RS"@[1] != "RC"@[1]); }
    assert("RS"@ != "ALL"@) by { assert("RS"@.len() != "ALL"@.len()); }
    assert("RS"@ != "LC"@) by { assert("RS"@[0] != "LC"@[0]); }
    assert("RS"@ != "VLT"@) by { assert("RS"@.len() != "VLT"@.len()); }
    assert("RS"@ != "LS"@) by { assert("RS"@[0] != "LS"@[0]); }
    assert("RS"@ != "L"@) by { assert("RS"@.len() != "L"@.len()); }
    assert("RS"@ != "R"@) by { assert("RS"@.len() != "R"@.len()); }
    assert("RS"@ != "BS"@) by { assert("RS"@[0] != "BS"@[0]); }
    assert("RS"@ != "IN"@) by { assert("RS"@[0] != "IN"@[0]); }
    assert("RS"@ != "I"@) by { assert("RS"@.len() != "I"@.len()); }
    assert("BS"@ != "UP"@) by { assert("BS"@[0] != "UP"@[0]); }
    assert("BS"@ != "DW"@) by { assert("BS"@[0] != "DW"@[0]); }
    assert("BS"@ != "CE"@) by { assert("BS"@[0] != "CE"@[0]); }
    assert("BS"@ != "RC"@) by { assert("BS"@[0] != "RC"@[0]); }
    assert("BS"@ != "ALL"@) by { assert("BS"@.len() != "ALL"@.len()); }
    assert("BS"@ != "LC"@) by { assert("BS"@[0] != "LC"@[0]); }
    assert("BS"@ != "VLT"@) by { assert("BS"@.len() != "VLT"@.len()); }
    assert("BS"@ != "LS"@) by { assert("BS"@[0] != "LS"@[0]); }
    assert("BS"@ != "L"@) by { assert("BS"@.len() != "L"@.len()); }
    assert("BS"@ != "RS"@) by { assert("BS"@[0] != "RS"@[0]); }
    assert("BS"@ != "R"@) by { assert("BS"@.len() != "R"@.len()); }
    assert("BS"@ != "IN"@) by { assert("BS"@[0] != "IN"@[0]); }
    assert("BS"@ != "I"@) by { assert("BS"@.len() != "I"@.len()); }
}

/// Every AIR direction is read back unchanged from its C2S record name.
pub proof fn lemma_air_direction_round_trip(value: AirDirection)
    ensures
        air_direction_code(air_direction_text(value)) == Some(value),
{
    reveal_strlit("AIR");
    reveal_strlit("AUR");
    reveal_strlit("AUL");
    reveal_strlit("ADW");
    reveal_strlit("ADR");
    reveal_strlit("ADL");
    assert("AIR"@ != "AUR"@) by { assert("AIR"@[1] != "AUR"@[1]); }
    assert("AIR"@ != "AUL"@) by { assert("AIR"@[1] != "AUL"@[1]); }
    assert("AIR"@ != "ADW"@) by { assert("AIR"@[1] != "ADW"@[1]); }
    assert("AIR"@ != "ADR"@) by { assert("AIR"@[1] != "ADR"@[1]); }
    assert("AIR"@ != "ADL"@) by { assert("AIR"@[1] != "ADL"@[1]); }
    assert("AUR"@ != "AIR"@) by { assert("AUR"@[1] != "AIR"@[1]); }
    assert("AUR"@ != "AUL"@) by { assert("AUR"@[2] != "AUL"@[2]); }
    assert("AUR"@ != "ADW"@) by { assert("AUR"@[1] != "ADW"@[1]); }
    assert("AUR"@ != "ADR"@) by { assert("AUR"@[1] != "ADR"@[1]); }
    assert("AUR"@ != "ADL"@) by { assert("AUR"@[1] != "ADL"@[1]); }
    assert("AUL"@ != "AIR"@) by { assert("AUL"@[1] != "AIR"@[1]); }
    assert("AUL"@ != "AUR"@) by { assert("AUL"@[2] != "AUR"@[2]); }
    assert("AUL"@ != "ADW"@) by { assert("AUL"@[1] != "ADW"@[1]); }
    assert("AUL"@ != "ADR"@) by { assert("AUL"@[1] != "ADR"@[1]); }
    assert("AUL"@ != "ADL"@) by { assert("AUL"@[1] != "ADL"@[1]); }
    assert("ADW"@ != "AIR"@) by { assert("ADW"@[1] != "AIR"@[1]); }
    assert("ADW"@ != "AUR"@) by { assert("ADW"@[1] != "AUR"@[1]); }
    assert("ADW"@ != "AUL"@) by { assert("ADW"@[1] != "AUL"@[1]); }
    assert("ADW"@ != "ADR"@) by { assert("ADW"@[2] != "ADR"@[2]); }
    assert("ADW"@ != "ADL"@) by { assert("ADW"@[2] != "ADL"@[2]); }
    assert("ADR"@ != "AIR"@) by { assert("ADR"@[1] != "AIR"@[1]); }
    assert("ADR"@ != "AUR"@) by { assert("ADR"@[1] != "AUR"@[1]); }
    assert("ADR"@ != "AUL"@) by { assert("ADR"@[1] != "AUL"@[1]); }
    assert("ADR"@ != "ADW"@) by { assert("ADR"@[2] != "ADW"@[2]); }
    assert("ADR"@ != "ADL"@) by { assert("ADR"@[2] != "ADL"@[2]); }
    assert("ADL"@ != "AIR"@) by { assert("ADL"@[1] != "AIR"@[1]); }
    assert("ADL"@ != "AUR"@) by { assert("ADL"@[1] != "AUR"@[1]); }
    assert("ADL"@ != "AUL"@) by { assert("ADL"@[1] != "AUL"@[1]); }
    assert("ADL"@ != "ADW"@) by { assert("ADL"@[2] != "ADW"@[2]); }
    assert("ADL"@ != "ADR"@) by { assert("ADL"@[2] != "ADR"@[2]); }
}

/// Every AIR color is read back unchanged from its C2S code.
pub proof fn lemma_air_color_round_trip(value: AirColor)
    ensures
        air_color_code(air_color_text(value)) == Some(value),
{
    reveal_strlit("DEF");
    reveal_strlit("GRN");
    reveal_strlit("PPL");
    assert("DEF"@ != "GRN"@) by { assert("DEF"@[0] != "GRN"@[0]); }
    assert("DEF"@ != "PPL"@) by { assert("DEF"@[0] != "PPL"@[0]); }
    assert("PPL"@ != "DEF"@) by { assert("PPL"@[0] != "DEF"@[0]); }
    assert("PPL"@ != "GRN"@) by { assert("PPL"@[0] != "GRN"@[0]); }
}

/// Every AIR Crush color is read back unchanged from its C2S code.
pub proof fn lemma_air_crush_color_round_trip(value: AirCrushColor)
    ensures
        air_crush_color_code(air_crush_color_text(value)) == Some(value),
{
    reveal_strlit("DEF");
    reveal_strlit("NON");
    reveal_strlit("RED");
    reveal_strlit("ORN");
    reveal_strlit("YEL");
    reveal_strlit("LIM");
    reveal_strlit("GRN");
    reveal_strlit("AQA");
    reveal_strlit("CYN");
    reveal_strlit("DGR");
    reveal_strlit("BLU");
    reveal_strlit("VLT");
    reveal_strlit("PPL");
    reveal_strlit("PNK");
    reveal_strlit("GRY");
    reveal_strlit("BLK");
    assert("DEF"@ != "NON"@) by { assert("DEF"@[0] != "NON"@[0]); }
    assert("DEF"@ != "RED"@) by { assert("DEF"@[0] != "RED"@[0]); }
    assert("DEF"@ != "ORN"@) by { assert("DEF"@[0] != "ORN"@[0]); }
    assert("DEF"@ != "YEL"@) by { assert("DEF"@[0] != "YEL"@[0]); }
    assert("DEF"@ != "LIM"@) by { assert("DEF"@[0] != "LIM"@[0]); }
    assert("DEF"@ != "GRN"@) by { assert("DEF"@[0] != "GRN"@[0]); }
    assert("DEF"@ != "AQA"@) by { assert("DEF"@[0] != "AQA"@[0]); }
    assert("DEF"@ != "CYN"@) by { assert("DEF"@[0] != "CYN"@[0]); }
    assert("DEF"@ != "DGR"@) by { assert("DEF"@[1] != "DGR"@[1]); }
    assert("DEF"@ != "BLU"@) by { assert("DEF"@[0] != "BLU"@[0]); }
    assert("DEF"@ != "VLT"@) by { assert("DEF"@[0] != "VLT"@[0]); }
    assert("DEF"@ != "PPL"@) by { assert("DEF"@[0] != "PPL"@[0]); }
    assert("DEF"@ != "PNK"@) by { assert("DEF"@[0] != "PNK"@[0]); }
    assert("DEF"@ != "GRY"@) by { assert("DEF"@[0] != "GRY"@[0]); }
    assert("DEF"@ != "BLK"@) by { assert("DEF"@[0] != "BLK"@[0]); }
    assert("NON"@ != "DEF"@) by { assert("NON"@[0] != "DEF"@[0]); }
    assert("NON"@ != "RED"@) by { assert("NON"@[0] != "RED"@[0]); }
    assert("NON"@ != "ORN"@) by { assert("NON"@[0] != "ORN"@[0]); }
    assert("NON"@ != "YEL"@) by { assert("NON"@[0] != "YEL"@[0]); }
    assert("NON"@ != "LIM"@) by { assert("NON"@[0] != "LIM"@[0]); }
    assert("NON"@ != "GRN"@) by { assert("NON"@[0] != "GRN"@[0]); }
    assert("NON"@ != "AQA"@) by { assert("NON"@[0] != "AQA"@[0]); }
    assert("NON"@ != "CYN"@) by { assert("NON"@[0] != "CYN"@[0]); }
    assert("NON"@ != "DGR"@) by { assert("NON"@[0] != "DGR"@[0]); }
    assert("NON"@ != "BLU"@) by { assert("NON"@[0] != "BLU"@[0]); }
    assert("NON"@ != "VLT"@) by { assert("NON"@[0] != "VLT"@[0]); }
    assert("NON"@ != "PPL"@) by { assert("NON"@[0] != "PPL"@[0]); }
    assert("NON"@ != "PNK"@) by { assert("NON"@[0] != "PNK"@[0]); }
    assert("NON"@ != "GRY"@) by { assert("NON"@[0] != "GRY"@[0]); }
    assert("NON"@ != "BLK"@) by { assert("NON"@[0] != "BLK"@[0]); }
    assert("RED"@ != "DEF"@) by { assert("RED"@[0] != "DEF"@[0]); }
    assert("RED"@ != "NON"@) by { assert("RED"@[0] != "NON"@[0]); }
    assert("RED"@ != "ORN"@) by { assert("RED"@[0] != "ORN"@[0]); }
    assert("RED"@ != "YEL"@) by { assert("RED"@[0] != "YEL"@[0]); }
    assert("RED"@ != "LIM"@) by { assert("RED"@[0] != "LIM"@[0]); }
    assert("RED"@ != "GRN"@) by { assert("RED"@[0] != "GRN"@[0]); }
    assert("RED"@ != "AQA"@) by { assert("RED"@[0] != "AQA"@[0]); }
    assert("RED"@ != "CYN"@) by { assert("RED"@[0] != "CYN"@[0]); }
    assert("RED"@ != "DGR"@) by { assert("RED"@[0] != "DGR"@[0]); }
    assert("RED"@ != "BLU"@) by { assert("RED"@[0] != "BLU"@[0]); }
    assert("RED"@ != "VLT"@) by { assert("RED"@[0] != "VLT"@[0]); }
    assert("RED"@ != "PPL"@) by { assert("RED"@[0] != "PPL"@[0]); }
    assert("RED"@ != "PNK"@) by { assert("RED"@[0] != "PNK"@[0]); }
    assert("RED"@ != "GRY"@) by { assert("RED"@[0] != "GRY"@[0]); }
    assert("RED"@ != "BLK"@) by { assert("RED"@[0] != "BLK"@[0]); }
    assert("ORN"@ != "DEF"@) by { assert("ORN"@[0] != "DEF"@[0]); }
    assert("ORN"@ != "NON"@) by { assert("ORN"@[0] != "NON"@[0]); }
    assert("ORN"@ != "RED"@) by { assert("ORN"@[0] != "RED"@[0]); }
    assert("ORN"@ != "YEL"@) by { assert("ORN"@[0] != "YEL"@[0]); }
    assert("ORN"@ != "LIM"@) by { assert("ORN"@[0] != "LIM"@[0]); }
    assert("ORN"@ != "GRN"@) by { assert("ORN"@[0] != "GRN"@[0]); }
    assert("ORN"@ != "AQA"@) by { assert("ORN"@[0] != "AQA"@[0]); }
    assert("ORN"@ != "CYN"@) by { assert("ORN"@[0] != "CYN"@[0]); }
    assert("ORN"@ != "DGR"@) by { assert("ORN"@[0] != "DGR"@[0]); }
    assert("ORN"@ != "BLU"@) by { assert("ORN"@[0] != "BLU"@[0]); }
    assert("ORN"@ != "VLT"@) by { assert("ORN"@[0] != "VLT"@[0]); }
    assert("ORN"@ != "PPL"@) by { assert("ORN"@[0] != "PPL"@[0]); }
    assert("ORN"@ != "PNK"@) by { assert("ORN"@[0] != "PNK"@[0]); }
    assert("ORN"@ != "GRY"@) by { assert("ORN"@[0] != "GRY"@[0]); }
    assert("ORN"@ != "BLK"@) by { assert("ORN"@[0] != "BLK"@[0]); }
    assert("YEL"@ != "DEF"@) by { assert("YEL"@[0] != "DEF"@[0]); }
    assert("YEL"@ != "NON"@) by { assert("YEL"@[0] != "NON"@[0]); }
    assert("YEL"@ != "RED"@) by { assert("YEL"@[0] != "RED"@[0]); }
    assert("YEL"@ != "ORN"@) by { assert("YEL"@[0] != "ORN"@[0]); }
    assert("YEL"@ != "LIM"@) by { assert("YEL"@[0] != "LIM"@[0]); }
    assert("YEL"@ != "GRN"@) by { assert("YEL"@[0] != "GRN"@[0]); }
    assert("YEL"@ != "AQA"@) by { assert("YEL"@[0] != "AQA"@[0]); }
    assert("YEL"@ != "CYN"@) by { assert("YEL"@[0] != "CYN"@[0]); }
    assert("YEL"@ != "DGR"@) by { assert("YEL"@[0] != "DGR"@[0]); }
    assert("YEL"@ != "BLU"@) by { assert("YEL"@[0] != "BLU"@[0]); }
    assert("YEL"@ != "VLT"@) by { assert("YEL"@[0] != "VLT"@[0]); }
    assert("YEL"@ != "PPL"@) by { assert("YEL"@[0] != "PPL"@[0]); }
    assert("YEL"@ != "PNK"@) by { assert("YEL"@[0] != "PNK"@[0]); }
    assert("YEL"@ != "GRY"@) by { assert("YEL"@[0] != "GRY"@[0]); }
    assert("YEL"@ != "BLK"@) by { assert("YEL"@[0] != "BLK"@[0]); }
    assert("LIM"@ != "DEF"@) by { assert("LIM"@[0] != "DEF"@[0]); }
    assert("LIM"@ != "NON"@) by { assert("LIM"@[0] != "NON"@[0]); }
    assert("LIM"@ != "RED"@) by { assert("LIM"@[0] != "RED"@[0]); }
    assert("LIM"@ != "ORN"@) by { assert("LIM"@[0] != "ORN"@[0]); }
    assert("LIM"@ != "YEL"@) by { assert("LIM"@[0] != "YEL"@[0]); }
    assert("LIM"@ != "GRN"@) by { assert("LIM"@[0] != "GRN"@[0]); }
    assert("LIM"@ != "AQA"@) by { assert("LIM"@[0] != "AQA"@[0]); }
    assert("LIM"@ != "CYN"@) by { assert("LIM"@[0] != "CYN"@[0]); }
    assert("LIM"@ != "DGR"@) by { assert("LIM"@[0] != "DGR"@[0]); }
    assert("LIM"@ != "BLU"@) by { assert("LIM"@[0] != "BLU"@[0]); }
    assert("LIM"@ != "VLT"@) by { assert("LIM"@[0] != "VLT"@[0]); }
    assert("LIM"@ != "PPL"@) by { assert("LIM"@[0] != "PPL"@[0]); }
    assert("LIM"@ != "PNK"@) by { assert("LIM"@[0] != "PNK"@[0]); }
    assert("LIM"@ != "GRY"@) by { assert("LIM"@[0] != "GRY"@[0]); }
    assert("LIM"@ != "BLK"@) by { assert("LIM"@[0] != "BLK"@[0]); }
    assert("GRN"@ != "DEF"@) by { assert("GRN"@[0] != "DEF"@[0]); }
    assert("GRN"@ != "NON"@) by { assert("GRN"@[0] != "NON"@[0]); }
    assert("GRN"@ != "RED"@) by { assert("GRN"@[0] != "RED"@[0]); }
    assert("GRN"@ != "ORN"@) by { assert("GRN"@[0] != "ORN"@[0]); }
    assert("GRN"@ != "YEL"@) by { assert("GRN"@[0] != "YEL"@[0]); }
    assert("GRN"@ != "LIM"@) by { assert("GRN"@[0] != "LIM"@[0]); }
    assert("GRN"@ != "AQA"@) by { assert("GRN"@[0] != "AQA"@[0]); }
    assert("GRN"@ != "CYN"@) by { assert("GRN"@[0] != "CYN"@[0]); }
    assert("GRN"@ != "DGR"@) by { assert("GRN"@[0] != "DGR"@[0]); }
    assert("GRN"@ != "BLU"@) by { assert("GRN"@[0] != "BLU"@[0]); }
    assert("GRN"@ != "VLT"@) by { assert("GRN"@[0] != "VLT"@[0]); }
    assert("GRN"@ != "PPL"@) by { assert("GRN"@[0] != "PPL"@[0]); }
    assert("GRN"@ != "PNK"@) by { assert("GRN"@[0] != "PNK"@[0]); }
    assert("GRN"@ != "GRY"@) by { assert("GRN"@[2] != "GRY"@[2]); }
    assert("GRN"@ != "BLK"@) by { assert("GRN"@[0] != "BLK"@[0]); }
    assert("AQA"@ != "DEF"@) by { assert("AQA"@[0] != "DEF"@[0]); }
    assert("AQA"@ != "NON"@) by { assert("AQA"@[0] != "NON"@[0]); }
    assert("AQA"@ != "RED"@) by { assert("AQA"@[0] != "RED"@[0]); }
    assert("AQA"@ != "ORN"@) by { assert("AQA"@[0] != "ORN"@[0]); }
    assert("AQA"@ != "YEL"@) by { assert("AQA"@[0] != "YEL"@[0]); }
    assert("AQA"@ != "LIM"@) by { assert("AQA"@[0] != "LIM"@[0]); }
    assert("AQA"@ != "GRN"@) by { assert("AQA"@[0] != "GRN"@[0]); }
    assert("AQA"@ != "CYN"@) by { assert("AQA"@[0] != "CYN"@[0]); }
    assert("AQA"@ != "DGR"@) by { assert("AQA"@[0] != "DGR"@[0]); }
    assert("AQA"@ != "BLU"@) by { assert("AQA"@[0] != "BLU"@[0]); }
    assert("AQA"@ != "VLT"@) by { assert("AQA"@[0] != "VLT"@[0]); }
    assert("AQA"@ != "PPL"@) by { assert("AQA"@[0] != "PPL"@[0]); }
    assert("AQA"@ != "PNK"@) by { assert("AQA"@[0] != "PNK"@[0]); }
    assert("AQA"@ != "GRY"@) by { assert("AQA"@[0] != "GRY"@[0]); }
    assert("AQA"@ != "BLK"@) by { assert("AQA"@[0] != "BLK"@[0]); }
    assert("CYN"@ != "DEF"@) by { assert("CYN"@[0] != "DEF"@[0]); }
    assert("CYN"@ != "NON"@) by { assert("CYN"@[0] != "NON"@[0]); }
    assert("CYN"@ != "RED"@) by { assert("CYN"@[0] != "RED"@[0]); }
    assert("CYN"@ != "ORN"@) by { assert("CYN"@[0] != "ORN"@[0]); }
    assert("CYN"@ != "YEL"@) by { assert("CYN"@[0] != "YEL"@[0]); }
    assert("CYN"@ != "LIM"@) by { assert("CYN"@[0] != "LIM"@[0]); }
    assert("CYN"@ != "GRN"@) by { assert("CYN"@[0] != "GRN"@[0]); }
    assert("CYN"@ != "AQA"@) by { assert("CYN"@[0] != "AQA"@[0]); }
    assert("CYN"@ != "DGR"@) by { assert("CYN"@[0] != "DGR"@[0]); }
    assert("CYN"@ != "BLU"@) by { assert("CYN"@[0] != "BLU"@[0]); }
    assert("CYN"@ != "VLT"@) by { assert("CYN"@[0] != "VLT"@[0]); }
    assert("CYN"@ != "PPL"@) by { assert("CYN"@[0] != "PPL"@[0]); }
    assert("CYN"@ != "PNK"@) by { assert("CYN"@[0] != "PNK"@[0]); }
    assert("CYN"@ != "GRY"@) by { assert("CYN"@[0] != "GRY"@[0]); }
    assert("CYN"@ != "BLK"@) by { assert("CYN"@[0] != "BLK"@[0]); }
    assert("DGR"@ != "DEF"@) by { assert("DGR"@[1] != "DEF"@[1]); }
    assert("DGR"@ != "NON"@) by { assert("DGR"@[0] != "NON"@[0]); }
    assert("DGR"@ != "RED"@) by { assert("DGR"@[0] != "RED"@[0]); }
    assert("DGR"@ != "ORN"@) by { assert("DGR"@[0] != "ORN"@[0]); }
    assert("DGR"@ != "YEL"@) by { assert("DGR"@[0] != "YEL"@[0]); }
    assert("DGR"@ != "LIM"@) by { assert("DGR"@[0] != "LIM"@[0]); }
    assert("DGR"@ != "GRN"@) by { assert("DGR"@[0] != "GRN"@[0]); }
    assert("DGR"@ != "AQA"@) by { assert("DGR"@[0] != "AQA"@[0]); }
    assert("DGR"@ != "CYN"@) by { assert("DGR"@[0] != "CYN"@[0]); }
    assert("DGR"@ != "BLU"@) by { assert("DGR"@[0] != "BLU"@[0]); }
    assert("DGR"@ != "VLT"@) by { assert("DGR"@[0] != "VLT"@[0]); }
    assert("DGR"@ != "PPL"@) by { assert("DGR"@[0] != "PPL"@[0]); }
    assert("DGR"@ != "PNK"@) by { assert("DGR"@[0] != "PNK"@[0]); }
    assert("DGR"@ != "GRY"@) by { assert("DGR"@[0] != "GRY"@[0]); }
    assert("DGR"@ != "BLK"@) by { assert("DGR"@[0] != "BLK"@[0]); }
    assert("BLU"@ != "DEF"@) by { assert("BLU"@[0] != "DEF"@[0]); }
    assert("BLU"@ != "NON"@) by { assert("BLU"@[0] != "NON"@[0]); }
    assert("BLU"@ != "RED"@) by { assert("BLU"@[0] != "RED"@[0]); }
    assert("BLU"@ != "ORN"@) by { assert("BLU"@[0] != "ORN"@[0]); }
    assert("BLU"@ != "YEL"@) by { assert("BLU"@[0] != "YEL"@[0]); }
    assert("BLU"@ != "LIM"@) by { assert("BLU"@[0] != "LIM"@[0]); }
    assert("BLU"@ != "GRN"@) by { assert("BLU"@[0] != "GRN"@[0]); }
    assert("BLU"@ != "AQA"@) by { assert("BLU"@[0] != "AQA"@[0]); }
    assert("BLU"@ != "CYN"@) by { assert("BLU"@[0] != "CYN"@[0]); }
    assert("BLU"@ != "DGR"@) by { assert("BLU"@[0] != "DGR"@[0]); }
    assert("BLU"@ != "VLT"@) by { assert("BLU"@[0] != "VLT"@[0]); }
    assert("BLU"@ != "PPL"@) by { assert("BLU"@[0] != "PPL"@[0]); }
    assert("BLU"@ != "PNK"@) by { assert("BLU"@[0] != "PNK"@[0]); }
    assert("BLU"@ != "GRY"@) by { assert("BLU"@[0] != "GRY"@[0]); }
    assert("BLU"@ != "BLK"@) by { assert("BLU"@[2] != "BLK"@[2]); }
    assert("VLT"@ != "DEF"@) by { assert("VLT"@[0] != "DEF"@[0]); }
    assert("VLT"@ != "NON"@) by { assert("VLT"@[0] != "NON"@[0]); }
    assert("VLT"@ != "RED"@) by { assert("VLT"@[0] != "RED"@[0]); }
    assert("VLT"@ != "ORN"@) by { assert("VLT"@[0] != "ORN"@[0]); }
    assert("VLT"@ != "YEL"@) by { assert("VLT"@[0] != "YEL"@[0]); }
    assert("VLT"@ != "LIM"@) by { assert("VLT"@[0] != "LIM"@[0]); }
    assert("VLT"@ != "GRN"@) by { assert("VLT"@[0] != "GRN"@[0]); }
    assert("VLT"@ != "AQA"@) by { assert("VLT"@[0] != "AQA"@[0]); }
    assert("VLT"@ != "CYN"@) by { assert("VLT"@[0] != "CYN"@[0]); }
    assert("VLT"@ != "DGR"@) by { assert("VLT"@[0] != "DGR"@[0]); }
    assert("VLT"@ != "BLU"@) by { assert("VLT"@[0] != "BLU"@[0]); }
    assert("VLT"@ != "PPL"@) by { assert("VLT"@[0] != "PPL"@[0]); }
    assert("VLT"@ != "PNK"@) by { assert("VLT"@[0] != "PNK"@[0]); }
    assert("VLT"@ != "GRY"@) by { assert("VLT"@[0] != "GRY"@[0]); }
    assert("VLT"@ != "BLK"@) by { assert("VLT"@[0] != "BLK"@[0]); }
    assert("PPL"@ != "DEF"@) by { assert("PPL"@[0] != "DEF"@[0]); }
    assert("PPL"@ != "NON"@) by { assert("PPL"@[0] != "NON"@[0]); }
    assert("PPL"@ != "RED"@) by { assert("PPL"@[0] != "RED"@[0]); }
    assert("PPL"@ != "ORN"@) by { assert("PPL"@[0] != "ORN"@[0]); }
    assert("PPL"@ != "YEL"@) by { assert("PPL"@[0] != "YEL"@[0]); }
    assert("PPL"@ != "LIM"@) by { assert("PPL"@[0] != "LIM"@[0]); }
    assert("PPL"@ != "GRN"@) by { assert("PPL"@[0] != "GRN"@[0]); }
    assert("PPL"@ != "AQA"@) by { assert("PPL"@[0] != "AQA"@[0]); }
    assert("PPL"@ != "CYN"@) by { assert("PPL"@[0] != "CYN"@[0]); }
    assert("PPL"@ != "DGR"@) by { assert("PPL"@[0] != "DGR"@[0]); }
    assert("PPL"@ != "BLU"@) by { assert("PPL"@[0] != "BLU"@[0]); }
    assert("PPL"@ != "VLT"@) by { assert("PPL"@[0] != "VLT"@[0]); }
    assert("PPL"@ != "PNK"@) by { assert("PPL"@[1] != "PNK"@[1]); }
    assert("PPL"@ != "GRY"@) by { assert("PPL"@[0] != "GRY"@[0]); }
    assert("PPL"@ != "BLK"@) by { assert("PPL"@[0] != "BLK"@[0]); }
    assert("PNK"@ != "DEF"@) by { assert("PNK"@[0] != "DEF"@[0]); }
    assert("PNK"@ != "NON"@) by { assert("PNK"@[0] != "NON"@[0]); }
    assert("PNK"@ != "RED"@) by { assert("PNK"@[0] != "RED"@[0]); }
    assert("PNK"@ != "ORN"@) by { assert("PNK"@[0] != "ORN"@[0]); }
    assert("PNK"@ != "YEL"@) by { assert("PNK"@[0] != "YEL"@[0]); }
    assert("PNK"@ != "LIM"@) by { assert("PNK"@[0] != "LIM"@[0]); }
    assert("PNK"@ != "GRN"@) by { assert("PNK"@[0] != "GRN"@[0]); }
    assert("PNK"@ != "AQA"@) by { assert("PNK"@[0] != "AQA"@[0]); }
    assert("PNK"@ != "CYN"@) by { assert("PNK"@[0] != "CYN"@[0]); }
    assert("PNK"@ != "DGR"@) by { assert("PNK"@[0] != "DGR"@[0]); }
    assert("PNK"@ != "BLU"@) by { assert("PNK"@[0] != "BLU"@[0]); }
    assert("PNK"@ != "VLT"@) by { assert("PNK"@[0] != "VLT"@[0]); }
    assert("PNK"@ != "PPL"@) by { assert("PNK"@[1] != "PPL"@[1]); }
    assert("PNK"@ != "GRY"@) by { assert("PNK"@[0] != "GRY"@[0]); }
    assert("PNK"@ != "BLK"@) by { assert("PNK"@[0] != "BLK"@[0]); }
    assert("GRY"@ != "DEF"@) by { assert("GRY"@[0] != "DEF"@[0]); }
    assert("GRY"@ != "NON"@) by { assert("GRY"@[0] != "NON"@[0]); }
    assert("GRY"@ != "RED"@) by { assert("GRY"@[0] != "RED"@[0]); }
    assert("GRY"@ != "ORN"@) by { assert("GRY"@[0] != "ORN"@[0]); }
    assert("GRY"@ != "YEL"@) by { assert("GRY"@[0] != "YEL"@[0]); }
    assert("GRY"@ != "LIM"@) by { assert("GRY"@[0] != "LIM"@[0]); }
    assert("GRY"@ != "GRN"@) by { assert("GRY"@[2] != "GRN"@[2]); }
    assert("GRY"@ != "AQA"@) by { assert("GRY"@[0] != "AQA"@[0]); }
    assert("GRY"@ != "CYN"@) by { assert("GRY"@[0] != "CYN"@[0]); }
    assert("GRY"@ != "DGR"@) by { assert("GRY"@[0] != "DGR"@[0]); }
    assert("GRY"@ != "BLU"@) by { assert("GRY"@[0] != "BLU"@[0]); }
    assert("GRY"@ != "VLT"@) by { assert("GRY"@[0] != "VLT"@[0]); }
    assert("GRY"@ != "PPL"@) by { assert("GRY"@[0] != "PPL"@[0]); }
    assert("GRY"@ != "PNK"@) by { assert("GRY"@[0] != "PNK"@[0]); }
    assert("GRY"@ != "BLK"@) by { assert("GRY"@[0] != "BLK"@[0]); }
    assert("BLK"@ != "DEF"@) by { assert("BLK"@[0] != "DEF"@[0]); }
    assert("BLK"@ != "NON"@) by { assert("BLK"@[0] != "NON"@[0]); }
    assert("BLK"@ != "RED"@) by { assert("BLK"@[0] != "RED"@[0]); }
    assert("BLK"@ != "ORN"@) by { assert("BLK"@[0] != "ORN"@[0]); }
    assert("BLK"@ != "YEL"@) by { assert("BLK"@[0] != "YEL"@[0]); }
    assert("BLK"@ != "LIM"@) by { assert("BLK"@[0] != "LIM"@[0]); }
    assert("BLK"@ != "GRN"@) by { assert("BLK"@[0] != "GRN"@[0]); }
    assert("BLK"@ != "AQA"@) by { assert("BLK"@[0] != "AQA"@[0]); }
    assert("BLK"@ != "CYN"@) by { assert("BLK"@[0] != "CYN"@[0]); }
    assert("BLK"@ != "DGR"@) by { assert("BLK"@[0] != "DGR"@[0]); }
    assert("BLK"@ != "BLU"@) by { assert("BLK"@[2] != "BLU"@[2]); }
    assert("BLK"@ != "VLT"@) by { assert("BLK"@[0] != "VLT"@[0]); }
    assert("BLK"@ != "PPL"@) by { assert("BLK"@[0] != "PPL"@[0]); }
    assert("BLK"@ != "PNK"@) by { assert("BLK"@[0] != "PNK"@[0]); }
    assert("BLK"@ != "GRY"@) by { assert("BLK"@[0] != "GRY"@[0]); }
}

/// Reads a decimal number of at most `max`, like `str::parse`.
fn parse_decimal(line: usize, value: &str, max: u64) -> (result: Result<u64, C2sError>)
    ensures
        match parse_unsigned_spec(value.spec_bytes(), 10, max as nat) {
            Some(v) => result == Ok::<u64, C2sError>(v as u64),
            None => result matches Err(C2sError::InvalidValue { line: l, value: t }) && l == line && t@ == value@,
        },
{
    match parse_unsigned(value.as_bytes(), 10, max) {
        Some(v) => Ok(v),
        None => Err(invalid_value(line, value)),
    }
}

/// Reads an unsigned 64-bit decimal field.
pub fn parse_u64(line: usize, value: &str) -> (result: Result<u64, C2sError>)
    ensures
        match parse_unsigned_spec(value.spec_bytes(), 10, u64::MAX as nat) {
            Some(v) => result == Ok::<u64, C2sError>(v as u64),
            None => result matches Err(C2sError::InvalidValue { line: l, value: t }) && l == line && t@ == value@,
        },
{
    parse_decimal(line, value, u64::MAX)
}

/// Reads an unsigned 32-bit decimal field.
pub fn parse_u32(line: usize, value: &str) -> (result: Result<u32, C2sError>)
    ensures
        match parse_unsigned_spec(value.spec_bytes(), 10, u32::MAX as nat) {
            Some(v) => result == Ok::<u32, C2sError>(v as u32),
            None => result matches Err(C2sError::InvalidValue { line: l, value: t }) && l == line && t@ == value@,
        },
{
    let v = parse_decimal(line, value, u32::MAX as u64)?;
    Ok(v as u32)
}

/// Reads an unsigned 8-bit decimal field.
pub fn parse_u8(line: usize, value: &str) -> (result: Result<u8, C2sError>)
    ensures
        match parse_unsigned_spec(value.spec_bytes(), 10, u8::MAX as nat) {
            Some(v) => result == Ok::<u8, C2sError>(v as u8),
            None => result matches Err(C2sError::InvalidValue { line: l, value: t }) && l == line && t@ == value@,
        },
{
    let v = parse_decimal(line, value, u8::MAX as u64)?;
    Ok(v as u8)
}

/// The slider lane as a start and a width; C2S has no side lanes.
pub fn c2s_lane(lane: Lane) -> (result: Result<(u8, u8), C2sError>)
    ensures
        match lane {
            Lane::Slider { start, width } => result == Ok::<(u8, u8), C2sError>((start, width)),
            Lane::Side(_) => (result matches Err(C2sError::UnsupportedRecord { line, record }) && line == 0
                && record@ == "side lane cannot be represented by C2S"@),
        },
{
    match lane {
        Lane::Slider { start, width } => Ok((start, width)),
        Lane::Side(_) => Err(unsupported("side lane cannot be represented by C2S")),
    }
}

/// Ticks at the C2S output resolution of 96 ticks per beat.
pub open spec fn c2s_ticks(position: Position) -> Option<nat> {
    let scaled = position.num() * 96;
    if scaled % position.den() == 0 && scaled / position.den() <= u64::MAX {
        Some(scaled / position.den())
    } else {
        None
    }
}

/// The absolute tick of a position at 96 ticks per beat.
pub fn output_ticks(position: Position) -> (result: Result<u64, C2sError>)
    ensures
        match c2s_ticks(position) {
            Some(t) => result == Ok::<u64, C2sError>(t as u64),
            None => result matches Err(C2sError::UnrepresentablePosition),
        },
{
    let numerator = position.numerator() as u128;
    let denominator = position.denominator() as u128;
    let ticks = numerator * 96;
    if ticks % denominator != 0 {
        return Err(C2sError::UnrepresentablePosition);
    }
    let whole = ticks / denominator;
    if whole > u64::MAX as u128 {
        return Err(C2sError::UnrepresentablePosition);
    }
    Ok(whole as u64)
}

/// The measure and tick of a position, with 384 ticks per measure.
pub open spec fn c2s_location(position: Position) -> Option<(nat, nat)> {
    match c2s_ticks(position) {
        Some(t) => if t / 384 <= u32::MAX {
            Some((t / 384, t % 384))
        } else {
            None
        },
        None => None,
    }
}

/// The measure and tick at which a position is written.
pub fn output_position(position: Position) -> (result: Result<(u32, u64), C2sError>)
    ensures
        match c2s_location(position) {
            Some((m, t)) => result == Ok::<(u32, u64), C2sError>((m as u32, t as u64)),
            None => result matches Err(C2sError::UnrepresentablePosition),
        },
{
    let ticks = output_ticks(position)?;
    if ticks / 384 > u32::MAX as u64 {
        return Err(C2sError::UnrepresentablePosition);
    }
    Ok(((ticks / 384) as u32, ticks % 384))
}

/// The number of ticks from `start` to `end`.
pub open spec fn c2s_duration(start: Position, end: Position) -> Option<nat> {
    match (c2s_ticks(end), c2s_ticks(start)) {
        (Some(e), Some(s)) => if e >= s {
            Some((e - s) as nat)
        } else {
            None
        },
        _ => None,
    }
}

/// The number of ticks from `start` to `end`.
pub fn duration_ticks(start: Position, end: Position) -> (result: Result<u64, C2sError>)
    ensures
        match c2s_duration(start, end) {
            Some(d) => result == Ok::<u64, C2sError>(d as u64),
            None => result matches Err(C2sError::UnrepresentablePosition),
        },
{
    let end_ticks = output_ticks(end)?;
    let start_ticks = output_ticks(start)?;
    if end_ticks < start_ticks {
        return Err(C2sError::UnrepresentablePosition);
    }
    Ok(end_ticks - start_ticks)
}

/// The decimal text of a number.
pub open spec fn dec(n: nat) -> Seq<char> {
    ascii_chars(digits_of(n, 10))
}

/// Both ends of a slide are visible points.
pub open spec fn slide_ends_visible(points: Seq<SlidePoint>) -> bool {
    &&& points[0].kind_spec() == SlidePointKind::Visible
    &&& points.last().kind_spec() == SlidePointKind::Visible
}

/// Whether C2S can write the kinds of a slide's points: visible ends and
/// control points between them.
pub open spec fn slide_kinds_supported(points: Seq<SlidePoint>) -> bool {
    &&& points[0].kind_spec() == SlidePointKind::Visible
    &&& points.last().kind_spec() == SlidePointKind::Visible
    &&& forall|i: int| 0 < i < points.len() - 1 ==> #[trigger] points[i].kind_spec() == SlidePointKind::Control
}

/// Why C2S cannot write a note.
pub enum C2sFailure {
    /// A position does not fall on a tick.
    Unrepresentable,
    /// C2S cannot write what the text names.
    Unsupported(Seq<char>),
    /// The note that an AIR note stands on is not in the chart.
    InvalidParent,
}

/// The error that `failure` is reported with.
pub open spec fn c2s_fails_as(result: Result<String, C2sError>, failure: C2sFailure) -> bool {
    match failure {
        C2sFailure::Unrepresentable => result matches Err(C2sError::UnrepresentablePosition),
        C2sFailure::Unsupported(text) => result matches Err(C2sError::UnsupportedRecord { line, record }) && line == 0
            && record@ == text,
        C2sFailure::InvalidParent => result matches Err(C2sError::InvalidValue { line, value }) && line == 0 && value@
            == "invalid note parent"@,
    }
}

/// The failure of a side lane.
pub open spec fn side_lane_failure() -> C2sFailure {
    C2sFailure::Unsupported("side lane cannot be represented by C2S"@)
}

/// The record for segment `i` of a slide, from point `i` to point `i + 1`.
pub open spec fn slide_segment(points: Seq<SlidePoint>, i: int, direction: Option<ExDirection>) -> Result<
    Seq<char>,
    C2sFailure,
> {
    let start = points[i];
    let end = points[i + 1];
    let kind = if i + 1 == points.len() - 1 {
        if direction is Some { "SXD"@ } else { "SLD"@ }
    } else {
        if direction is Some { "SXC"@ } else { "SLC"@ }
    };
    match c2s_location(start.position_spec()) {
        None => Err(C2sFailure::Unrepresentable),
        Some((m, t)) => match (start.lane_spec(), end.lane_spec()) {
            (Lane::Slider { start: sl, width: sw }, Lane::Slider { start: el, width: ew }) => match c2s_duration(
                start.position_spec(),
                end.position_spec(),
            ) {
                None => Err(C2sFailure::Unrepresentable),
                Some(d) => {
                    let record = kind + "\t"@ + dec(m) + "\t"@ + dec(t) + "\t"@ + dec(sl as nat) + "\t"@ + dec(sw as nat)
                        + "\t"@ + dec(d) + "\t"@ + dec(el as nat) + "\t"@ + dec(ew as nat);
                    match direction {
                        None => Ok(record),
                        Some(dir) => match ex_direction_text(dir) {
                            Some(code) => Ok(record + "\t"@ + code),
                            None => Err(C2sFailure::Unsupported("diagonal Ex direction"@)),
                        },
                    }
                },
            },
            _ => Err(side_lane_failure()),
        },
    }
}

/// The records of the first `count` segments of a slide, joined by new lines.
pub open spec fn slide_segments(points: Seq<SlidePoint>, count: nat, direction: Option<ExDirection>) -> Result<
    Seq<char>,
    C2sFailure,
>
    decreases count,
{
    if count == 0 {
        Ok(Seq::empty())
    } else {
        match slide_segments(points, (count - 1) as nat, direction) {
            Err(failure) => Err(failure),
            Ok(before) => match slide_segment(points, count - 1, direction) {
                Err(failure) => Err(failure),
                Ok(record) => if count == 1 {
                    Ok(record)
                } else {
                    Ok(before + "\n"@ + record)
                },
            },
        }
    }
}

/// The records that C2S writes for a slide through `points`, with an Ex
/// direction for an Ex slide.
pub open spec fn slide_text(points: Seq<SlidePoint>, direction: Option<ExDirection>) -> Result<Seq<char>, C2sFailure> {
    if points.len() < 2 {
        Err(C2sFailure::Unsupported("slide without an end point"@))
    } else if !slide_ends_visible(points) {
        Err(C2sFailure::Unsupported("slide endpoint kind"@))
    } else if !slide_kinds_supported(points) {
        Err(C2sFailure::Unsupported("slide control point kind"@))
    } else {
        slide_segments(points, (points.len() - 1) as nat, direction)
    }
}

/// Appends `n` in decimal after a tab.
fn push_field(out: &mut String, n: u64)
    ensures
        final(out)@ == old(out)@ + "\t"@ + dec(n as nat),
{
    out.append("\t");
    push_digits(out, n, 10);
}

/// The record of one slide segment.
fn write_slide_segment(points: &[SlidePoint], index: usize, direction: Option<ExDirection>) -> (result: Result<String, C2sError>)
    requires
        index + 1 < points@.len(),
    ensures
        match slide_segment(points@, index as int, direction) {
            Ok(text) => result matches Ok(s) && s@ == text,
            Err(failure) => c2s_fails_as(result, failure),
        },
{
    let start = points[index];
    let end = points[index + 1];
    let (measure, tick) = output_position(start.position())?;
    let (start_lane, start_width) = c2s_lane(start.lane())?;
    let (end_lane, end_width) = c2s_lane(end.lane())?;
    let duration = duration_ticks(start.position(), end.position())?;
    let mut record = if index + 1 == points.len() - 1 {
        if direction.is_some() { String::from_str("SXD") } else { String::from_str("SLD") }
    } else {
        if direction.is_some() { String::from_str("SXC") } else { String::from_str("SLC") }
    };
    push_field(&mut record, measure as u64);
    push_field(&mut record, tick);
    push_field(&mut record, start_lane as u64);
    push_field(&mut record, start_width as u64);
    push_field(&mut record, duration);
    push_field(&mut record, end_lane as u64);
    push_field(&mut record, end_width as u64);
    if let Some(direction) = direction {
        let code = encode_ex_direction(direction)?;
        record.append("\t");
        record.append(code);
    }
    Ok(record)
}

/// Writes a slide as C2S records, one per segment: `SLC` or `SXC` for a
/// segment ending at a control point and `SLD` or `SXD` for the last one.
pub fn write_slide(points: &[SlidePoint], direction: Option<ExDirection>) -> (result: Result<String, C2sError>)
    ensures
        match slide_text(points@, direction) {
            Ok(text) => result matches Ok(s) && s@ == text,
            Err(failure) => c2s_fails_as(result, failure),
        },
{
    if points.len() < 2 {
        return Err(unsupported("slide without an end point"));
    }
    if *points[0].kind() != SlidePointKind::Visible || *points[points.len() - 1].kind() != SlidePointKind::Visible {
        return Err(unsupported("slide endpoint kind"));
    }
    let mut index: usize = 1;
    while index < points.len() - 1
        invariant
            1 <= index <= points@.len() - 1,
            points@.len() >= 2,
            points@[0].kind_spec() == SlidePointKind::Visible,
            points@.last().kind_spec() == SlidePointKind::Visible,
            forall|i: int| 0 < i < index ==> #[trigger] points@[i].kind_spec() == SlidePointKind::Control,
        decreases points@.len() - index,
    {
        if *points[index].kind() != SlidePointKind::Control {
            return Err(unsupported("slide control point kind"));
        }
        index += 1;
    }
    let mut text = String::new();
    let mut segment: usize = 0;
    while segment < points.len() - 1
        invariant
            points@.len() >= 2,
            slide_kinds_supported(points@),
            segment <= points@.len() - 1,
            slide_segments(points@, segment as nat, direction) == Ok::<Seq<char>, C2sFailure>(text@),
        decreases points@.len() - segment,
    {
        let record = match write_slide_segment(points, segment, direction) {
            Ok(record) => record,
            Err(error) => {
                proof {
                    lemma_slide_segments_fail(points@, (segment + 1) as nat, (points@.len() - 1) as nat, direction);
                }
                return Err(error);
            },
        };
        if segment > 0 {
            text.append("\n");
        }
        text.append(record.as_str());
        segment += 1;
    }
    Ok(text)
}

/// Once a segment cannot be written, neither can the slide, for the same
/// reason.
proof fn lemma_slide_segments_fail(points: Seq<SlidePoint>, k: nat, n: nat, direction: Option<ExDirection>)
    requires
        1 <= k <= n,
        slide_segments(points, (k - 1) as nat, direction) is Ok,
        slide_segment(points, k - 1, direction) is Err,
    ensures
        slide_segments(points, n, direction) == Err::<Seq<char>, C2sFailure>(
            slide_segment(points, k - 1, direction)->Err_0,
        ),
    decreases n - k,
{
    if k < n {
        lemma_slide_segments_fail(points, k, (n - 1) as nat, direction);
    }
}

} // verus!
