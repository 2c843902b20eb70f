//! Reading a standard SUS note line: a five-digit hexadecimal header of
//! measure and tick, and data that starts with a note code, a lane and a
//! width, each two hexadecimal digits.

use vstd::prelude::*;
use vstd::slice::slice_subrange;
use vstd::string::{StringExecFns, StringSliceAdditionalSpecFns};
use vstd::utf8::{decode_utf8, encode_utf8, is_char_boundary};

use crate::chart::ChartMode;
use crate::error::ChartError;
use crate::note::{valid_slider, AirDirection, ExDirection, Lane, TapKind};
use crate::position::{sum, Position};
use crate::sus::SusError;
use crate::text::{ascii_chars, chars_of, decimal, digits_of, parse_chars, parse_chars_spec, parse_unsigned, parse_unsigned_spec};
use crate::timeline::MeasureTimeline;

verus! {

/// What a standard SUS note line holds besides its position and lane.
#[derive(Debug, PartialEq, Eq)]
pub enum StandardReadNote {
    Tap(TapKind),
    ExTap(ExDirection),
    Mine,
    /// A hold that ends at the position given.
    Hold(Position),
    /// A slide segment that ends at the position and on the lane given.
    Slide(Position, Lane),
    /// An AIR note in the direction given, with the text that names its
    /// parent, if any.
    Air(AirDirection, Option<String>),
    /// An AIR hold that ends at the position given, with the text that names
    /// its parent, if any.
    AirHold(Position, Option<String>),
}

/// What a standard SUS note line says.
#[derive(Debug, PartialEq, Eq)]
pub enum StandardRead {
    /// A tempo change at the position given, to the tempo that the line's
    /// definition names.
    Tempo(Position),
    /// A note at the position and on the lane given.
    Note(Position, Lane, StandardReadNote),
    /// Something the mode does not keep, named by the text.
    Dropped(String),
}

/// A note line's note as plain values.
pub enum ReadNoteParts {
    Tap(TapKind),
    ExTap(ExDirection),
    Mine,
    Hold(Position),
    Slide(Position, Lane),
    Air(AirDirection, Option<Seq<char>>),
    AirHold(Position, Option<Seq<char>>),
}

/// A note line's meaning as plain values.
pub enum ReadParts {
    Tempo(Position),
    Note(Position, Lane, ReadNoteParts),
    Dropped(Seq<char>),
}

/// The text of an optional string.
pub open spec fn optional_text(text: Option<String>) -> Option<Seq<char>> {
    match text {
        Some(s) => Some(s@),
        None => None,
    }
}

impl StandardReadNote {
    /// The note as plain values.
    pub open spec fn parts(self) -> ReadNoteParts {
        match self {
            StandardReadNote::Tap(kind) => ReadNoteParts::Tap(kind),
            StandardReadNote::ExTap(direction) => ReadNoteParts::ExTap(direction),
            StandardReadNote::Mine => ReadNoteParts::Mine,
            StandardReadNote::Hold(end) => ReadNoteParts::Hold(end),
            StandardReadNote::Slide(end, lane) => ReadNoteParts::Slide(end, lane),
            StandardReadNote::Air(direction, target) => ReadNoteParts::Air(direction, optional_text(target)),
            StandardReadNote::AirHold(end, target) => ReadNoteParts::AirHold(end, optional_text(target)),
        }
    }
}

impl StandardRead {
    /// The line's meaning as plain values.
    pub open spec fn parts(self) -> ReadParts {
        match self {
            StandardRead::Tempo(position) => ReadParts::Tempo(position),
            StandardRead::Note(position, lane, note) => ReadParts::Note(position, lane, note.parts()),
            StandardRead::Dropped(text) => ReadParts::Dropped(text@),
        }
    }
}

/// Why a note line cannot be read.
pub enum ReadFailure {
    /// The data is no valid note: reported with the data.
    InvalidData,
    /// A value is out of range: reported with the text given.
    InvalidText(Seq<char>),
    /// The header is no hexadecimal number.
    Malformed,
    /// The chart refuses a value.
    Chart(ChartError),
}

/// How reading a note line stops short.
pub enum ReadStop {
    Fails(ReadFailure),
    /// The byte range from the first index to the second is to be sliced
    /// out of the data, and does not start or end on a character boundary.
    OffBoundary(nat, nat),
}

/// Why a note line was not read.
#[derive(Debug, PartialEq)]
pub enum StandardReadError {
    /// The line is in error.
    Sus(SusError),
    /// The data's bytes from the first index to the second are to be sliced
    /// out as text, and do not start or end on a character boundary.
    OffBoundary(usize, usize),
}

/// The error that `failure` is reported with for line `line` with data `data`.
pub open spec fn fails_as(error: SusError, failure: ReadFailure, line: usize, data: Seq<char>) -> bool {
    match failure {
        ReadFailure::InvalidData => error matches SusError::InvalidValue { line: l, value } && l == line && value@
            == data,
        ReadFailure::InvalidText(text) => error matches SusError::InvalidValue { line: l, value } && l == line
            && value@ == text,
        ReadFailure::Malformed => error matches SusError::MalformedCommand { line: l } && l == line,
        ReadFailure::Chart(e) => error matches SusError::Chart { line: l, source } && l == line && source == e,
    }
}

/// The error that `stop` is reported with for line `line` with data `data`.
pub open spec fn stops_as(error: StandardReadError, stop: ReadStop, line: usize, data: Seq<char>) -> bool {
    match stop {
        ReadStop::Fails(failure) => error matches StandardReadError::Sus(e) && fails_as(e, failure, line, data),
        ReadStop::OffBoundary(start, end) => error == StandardReadError::OffBoundary(start as usize, end as usize),
    }
}

/// A character is an ASCII hexadecimal digit.
pub open spec fn is_hex_char(c: char) -> bool {
    ('0' <= c && c <= '9') || ('a' <= c && c <= 'f') || ('A' <= c && c <= 'F')
}

/// The bytes `a` to `z` of the data, read as hexadecimal up to `max`.
pub open spec fn data_hex(bytes: Seq<u8>, a: nat, z: nat, max: nat) -> Option<nat> {
    parse_unsigned_spec(bytes.subrange(a as int, z as int), 16, max)
}

/// The byte range `a` to `z` starts and ends on character boundaries.
pub open spec fn sliced(bytes: Seq<u8>, a: nat, z: nat) -> bool {
    is_char_boundary(bytes, a as int) && is_char_boundary(bytes, z as int)
}

/// The note codes of standard SUS note lines.
pub open spec fn standard_code(code: nat) -> bool {
    code == 1 || code == 2 || code == 3 || code == 5 || code == 6 || code == 7 || code == 8 || code == 9 || code
        == 16
}

/// The header is five hexadecimal digits that do not end in `08`.
pub open spec fn note_header(header: Seq<char>) -> bool {
    &&& header.len() == 5
    &&& forall|i: int| 0 <= i < 5 ==> is_hex_char(#[trigger] header[i])
    &&& !(header[3] == '0' && header[4] == '8')
}

/// The data is a tempo change: four bytes that start with `08`.
pub open spec fn tempo_data(bytes: Seq<u8>) -> bool {
    bytes.len() == 4 && bytes[0] == 48 && bytes[1] == 56
}

/// A definition with this header and data is a standard SUS note line.
pub open spec fn is_standard_note_spec(header: Seq<char>, data: Seq<char>) -> bool {
    let bytes = encode_utf8(data);
    &&& note_header(header)
    &&& (bytes.len() >= 6 || tempo_data(bytes))
    &&& data_hex(bytes, 0, 2, 255) matches Some(code) && standard_code(code)
}

/// Telling a standard note line apart slices the data's first two bytes
/// where they do not end on a character boundary.
pub open spec fn note_test_panics(header: Seq<char>, data: Seq<char>) -> bool {
    let bytes = encode_utf8(data);
    note_header(header) && (bytes.len() >= 6 || bytes.len() == 4) && !is_char_boundary(bytes, 2)
}

/// The lane whose doubled start and width are written at bytes `a` to
/// `a + 4` of the data; the width is at least one.
pub open spec fn read_lane(bytes: Seq<u8>, a: nat) -> Result<Lane, ReadStop> {
    if !sliced(bytes, a, a + 2) {
        Err(ReadStop::OffBoundary(a, a + 2))
    } else {
        match data_hex(bytes, a, a + 2, 255) {
            None => Err(ReadStop::Fails(ReadFailure::InvalidData)),
            Some(start_code) => if !sliced(bytes, a + 2, a + 4) {
                Err(ReadStop::OffBoundary(a + 2, a + 4))
            } else {
                match data_hex(bytes, a + 2, a + 4, 255) {
                    None => Err(ReadStop::Fails(ReadFailure::InvalidData)),
                    Some(width_code) => {
                        let start = start_code / 2;
                        let width = if width_code / 2 < 1 {
                            1
                        } else {
                            width_code / 2
                        };
                        if valid_slider(start as u8, width as u8) {
                            Ok(Lane::Slider { start: start as u8, width: width as u8 })
                        } else {
                            Err(ReadStop::Fails(ReadFailure::Chart(ChartError::InvalidSliderLane)))
                        }
                    },
                }
            },
        }
    }
}

/// The end of a long note that starts at `position`, whose duration in
/// ticks is written at bytes 6 to 10 of data of at least `length` bytes.
pub open spec fn long_end(bytes: Seq<u8>, length: nat, position: Position, ticks_per_beat: nat) -> Result<
    Position,
    ReadStop,
> {
    if bytes.len() < length {
        Err(ReadStop::Fails(ReadFailure::InvalidData))
    } else if !sliced(bytes, 6, 10) {
        Err(ReadStop::OffBoundary(6, 10))
    } else {
        match data_hex(bytes, 6, 10, u64::MAX as nat) {
            None => Err(ReadStop::Fails(ReadFailure::InvalidData)),
            Some(duration) => if ticks_per_beat == 0 {
                Err(ReadStop::Fails(ReadFailure::Chart(ChartError::InvalidPositionDenominator)))
            } else {
                match sum(position, Position::from_fraction(duration, ticks_per_beat)) {
                    Ok(end) => Ok(end),
                    Err(error) => Err(ReadStop::Fails(ReadFailure::Chart(error))),
                }
            },
        }
    }
}

/// The text from byte `k` of the data on, when there is any and `k` is a
/// character boundary.
pub open spec fn target_from(bytes: Seq<u8>, k: int) -> Option<Seq<char>> {
    if k < bytes.len() && is_char_boundary(bytes, k) {
        Some(decode_utf8(bytes.subrange(k, bytes.len() as int)))
    } else {
        None
    }
}

/// What the note code `code` of a line at `position` on `lane` says.
pub open spec fn note_read(
    bytes: Seq<u8>,
    mode: ChartMode,
    position: Position,
    lane: Lane,
    code: nat,
    ticks_per_beat: nat,
) -> Result<ReadParts, ReadStop> {
    if code == 1 {
        Ok(ReadParts::Note(position, lane, ReadNoteParts::Tap(TapKind::Tap)))
    } else if code == 2 {
        if mode is Xlair {
            Ok(ReadParts::Note(position, lane, ReadNoteParts::Tap(TapKind::XTap)))
        } else {
            Ok(ReadParts::Note(position, lane, ReadNoteParts::ExTap(ExDirection::Up)))
        }
    } else if code == 3 {
        Ok(ReadParts::Note(position, lane, ReadNoteParts::Tap(TapKind::Flick { direction: None })))
    } else if code == 16 {
        if mode is Xlair {
            Ok(ReadParts::Dropped("damage note in XLAIR mode"@))
        } else {
            Ok(ReadParts::Note(position, lane, ReadNoteParts::Mine))
        }
    } else if code == 5 {
        match long_end(bytes, 10, position, ticks_per_beat) {
            Ok(end) => Ok(ReadParts::Note(position, lane, ReadNoteParts::Hold(end))),
            Err(stop) => Err(stop),
        }
    } else if code == 6 {
        match long_end(bytes, 14, position, ticks_per_beat) {
            Err(stop) => Err(stop),
            Ok(end) => match read_lane(bytes, 10) {
                Ok(end_lane) => Ok(ReadParts::Note(position, lane, ReadNoteParts::Slide(end, end_lane))),
                Err(stop) => Err(stop),
            },
        }
    } else if code == 7 || code == 9 {
        if mode is Xlair {
            Ok(ReadParts::Dropped("AIR notation in XLAIR mode"@))
        } else {
            let direction = if code == 7 {
                AirDirection::Up
            } else {
                AirDirection::Down
            };
            Ok(ReadParts::Note(position, lane, ReadNoteParts::Air(direction, target_from(bytes, 6))))
        }
    } else if code == 8 {
        if mode is Xlair {
            Ok(ReadParts::Dropped("AIR notation in XLAIR mode"@))
        } else {
            match long_end(bytes, 10, position, ticks_per_beat) {
                Ok(end) => Ok(ReadParts::Note(position, lane, ReadNoteParts::AirHold(end, target_from(bytes, 10)))),
                Err(stop) => Err(stop),
            }
        }
    } else {
        Err(ReadStop::Fails(ReadFailure::InvalidData))
    }
}

/// What a standard SUS note line says, read at `ticks_per_beat` with
/// `measure_base` added to its measure; `tempo_defined` tells whether the
/// tempo that a tempo change names is defined.
pub open spec fn standard_read(
    measure_base: u32,
    ticks_per_beat: u64,
    timeline: MeasureTimeline,
    mode: ChartMode,
    header: Seq<char>,
    bytes: Seq<u8>,
    tempo_defined: bool,
) -> Result<ReadParts, ReadStop> {
    let tempo = tempo_data(bytes);
    if tempo && !tempo_defined {
        Err(ReadStop::Fails(ReadFailure::InvalidData))
    } else {
        match parse_chars_spec(header.subrange(0, 2), 16, u32::MAX as nat) {
            None => Err(ReadStop::Fails(ReadFailure::Malformed)),
            Some(offset) => if measure_base + offset > u32::MAX {
                Err(ReadStop::Fails(ReadFailure::InvalidText(header.subrange(0, 2))))
            } else {
                match parse_chars_spec(header.subrange(2, 5), 16, u64::MAX as nat) {
                    None => Err(ReadStop::Fails(ReadFailure::Malformed)),
                    Some(tick) => if ticks_per_beat * 4 > u64::MAX {
                        Err(
                            ReadStop::Fails(
                                ReadFailure::InvalidText(ascii_chars(digits_of(ticks_per_beat as nat, 10))),
                            ),
                        )
                    } else {
                        match timeline.position_spec((measure_base + offset) as nat, tick, (ticks_per_beat * 4) as nat) {
                            Err(error) => Err(ReadStop::Fails(ReadFailure::Chart(error))),
                            Ok(position) => if tempo {
                                Ok(ReadParts::Tempo(position))
                            } else if !sliced(bytes, 0, 2) {
                                Err(ReadStop::OffBoundary(0, 2))
                            } else {
                                match data_hex(bytes, 0, 2, 255) {
                                    None => Err(ReadStop::Fails(ReadFailure::InvalidData)),
                                    Some(code) => match read_lane(bytes, 2) {
                                        Err(stop) => Err(stop),
                                        Ok(lane) => note_read(bytes, mode, position, lane, code, ticks_per_beat as nat),
                                    },
                                }
                            },
                        }
                    },
                }
            },
        }
    }
}

/// Tells a standard SUS note line: a header of five hexadecimal digits
/// that do not end in `08`, and data of at least six bytes, or a tempo
/// change of four, whose first two bytes are a note code in hexadecimal.
pub fn is_standard_note(header: &str, data: &str) -> (standard: bool)
    requires
        !note_test_panics(header@, data@),
    ensures
        standard == is_standard_note_spec(header@, data@),
{
    let header_chars = chars_of(header);
    if header_chars.len() != 5 {
        return false;
    }
    let mut i: usize = 0;
    while i < 5
        invariant
            header_chars@ == header@,
            header@.len() == 5,
            i <= 5,
            forall|j: int| 0 <= j < i ==> is_hex_char(#[trigger] header@[j]),
        decreases 5 - i,
    {
        let c = header_chars[i];
        if !(('0' <= c && c <= '9') || ('a' <= c && c <= 'f') || ('A' <= c && c <= 'F')) {
            return false;
        }
        i += 1;
    }
    if header_chars[3] == '0' && header_chars[4] == '8' {
        return false;
    }
    let bytes = data.as_bytes();
    if !(bytes.len() >= 6 || (bytes.len() == 4 && bytes[0] == 48 && bytes[1] == 56)) {
        return false;
    }
    match parse_unsigned(slice_subrange(bytes, 0, 2), 16, 255) {
        Some(code) => code == 1 || code == 2 || code == 3 || code == 5 || code == 6 || code == 7 || code == 8 || code
            == 9 || code == 16,
        None => false,
    }
}

/// The failure of reading a note line reported as the error of that line.
fn report(line: usize, data: &str, failure: ReadFailure) -> (error: StandardReadError)
    requires
        !(failure is InvalidText),
    ensures
        stops_as(error, ReadStop::Fails(failure), line, data@),
{
    StandardReadError::Sus(
        match failure {
            ReadFailure::InvalidData => SusError::InvalidValue { line, value: data.to_owned() },
            ReadFailure::Malformed => SusError::MalformedCommand { line },
            ReadFailure::Chart(error) => SusError::Chart { line, source: error },
            ReadFailure::InvalidText(_) => SusError::MalformedCommand { line },
        },
    )
}

/// Whether the data's bytes from `start` to `end` start and end on
/// character boundaries; the error of slicing them out where they do not.
fn slice_check(data: &str, start: usize, end: usize) -> (result: Result<(), StandardReadError>)
    requires
        end <= 14,
    ensures
        sliced(data.spec_bytes(), start as nat, end as nat) ==> result is Ok,
        !sliced(data.spec_bytes(), start as nat, end as nat) ==> result == Err::<(), StandardReadError>(
            StandardReadError::OffBoundary(start, end),
        ),
{
    if data.is_char_boundary(start) && data.is_char_boundary(end) {
        Ok(())
    } else {
        Err(StandardReadError::OffBoundary(start, end))
    }
}

/// Reads the lane at bytes `a` to `a + 4`.
fn lane_at(line: usize, data: &str, a: usize) -> (result: Result<Lane, StandardReadError>)
    requires
        a <= 10,
        a + 4 <= data.spec_bytes().len(),
    ensures
        match read_lane(data.spec_bytes(), a as nat) {
            Ok(lane) => result == Ok::<Lane, StandardReadError>(lane),
            Err(stop) => result matches Err(error) && stops_as(error, stop, line, data@),
        },
{
    let bytes = data.as_bytes();
    slice_check(data, a, a + 2)?;
    let start_code = match parse_unsigned(slice_subrange(bytes, a, a + 2), 16, 255) {
        Some(code) => code as u8,
        None => return Err(report(line, data, ReadFailure::InvalidData)),
    };
    slice_check(data, a + 2, a + 4)?;
    let width_code = match parse_unsigned(slice_subrange(bytes, a + 2, a + 4), 16, 255) {
        Some(code) => code as u8,
        None => return Err(report(line, data, ReadFailure::InvalidData)),
    };
    let width = if width_code / 2 < 1 {
        1
    } else {
        width_code / 2
    };
    match Lane::slider(start_code / 2, width) {
        Ok(lane) => Ok(lane),
        Err(error) => Err(report(line, data, ReadFailure::Chart(error))),
    }
}

/// Reads the end of a long note whose duration is at bytes 6 to 10.
fn end_at(line: usize, data: &str, length: usize, position: Position, ticks_per_beat: u64) -> (result: Result<
    Position,
    StandardReadError,
>)
    requires
        10 <= length <= 14,
    ensures
        match long_end(data.spec_bytes(), length as nat, position, ticks_per_beat as nat) {
            Ok(end) => result == Ok::<Position, StandardReadError>(end),
            Err(stop) => result matches Err(error) && stops_as(error, stop, line, data@),
        },
{
    let bytes = data.as_bytes();
    if bytes.len() < length {
        return Err(report(line, data, ReadFailure::InvalidData));
    }
    slice_check(data, 6, 10)?;
    let duration = match parse_unsigned(slice_subrange(bytes, 6, 10), 16, u64::MAX) {
        Some(duration) => duration,
        None => return Err(report(line, data, ReadFailure::InvalidData)),
    };
    let length = match Position::new(duration, ticks_per_beat) {
        Ok(length) => length,
        Err(error) => return Err(report(line, data, ReadFailure::Chart(error))),
    };
    match position.checked_add(length) {
        Ok(end) => Ok(end),
        Err(error) => Err(report(line, data, ReadFailure::Chart(error))),
    }
}

/// The text from byte `k` of the data on, when there is any and `k` is a
/// character boundary.
fn target_at(data: &str, k: usize) -> (target: Option<String>)
    ensures
        optional_text(target) == target_from(data.spec_bytes(), k as int),
{
    broadcast use vstd::utf8::group_utf8_lib;

    if k < data.as_bytes().len() && data.is_char_boundary(k) {
        let (_, rest) = data.split_at(k);
        proof {
            assert(rest.spec_bytes() =~= data.spec_bytes().subrange(k as int, data.spec_bytes().len() as int));
            vstd::utf8::encode_utf8_decode_utf8(rest@);
        }
        Some(rest.to_owned())
    } else {
        None
    }
}

/// Reads a standard SUS note line at `line`, at `ticks_per_beat` with
/// `measure_base` added to its measure, in `mode`: a tempo change, which
/// `tempo_defined` must say has a defined tempo; a note at the header's
/// position with its lane and what its code says; or something the mode
/// drops. Where a byte range of the data is to be sliced out as text and
/// does not fall on character boundaries, it says which.
pub fn read_standard_note(
    line: usize,
    measure_base: u32,
    ticks_per_beat: u64,
    timeline: &MeasureTimeline,
    mode: ChartMode,
    header: &str,
    data: &str,
    tempo_defined: bool,
) -> (result: Result<StandardRead, StandardReadError>)
    requires
        is_standard_note_spec(header@, data@),
    ensures
        match standard_read(measure_base, ticks_per_beat, *timeline, mode, header@, data.spec_bytes(), tempo_defined) {
            Ok(parts) => result matches Ok(read) && read.parts() == parts,
            Err(stop) => result matches Err(error) && stops_as(error, stop, line, data@),
        },
{
    let bytes = data.as_bytes();
    let tempo = bytes.len() == 4 && bytes[0] == 48 && bytes[1] == 56;
    if tempo && !tempo_defined {
        return Err(report(line, data, ReadFailure::InvalidData));
    }
    let header_chars = chars_of(header);
    let offset = match parse_chars(slice_subrange(header_chars.as_slice(), 0, 2), 16, u32::MAX as u64) {
        Some(offset) => offset as u32,
        None => return Err(report(line, data, ReadFailure::Malformed)),
    };
    let measure = match measure_base.checked_add(offset) {
        Some(measure) => measure,
        None => {
            let mut value = String::new();
            value.push(header_chars[0]);
            value.push(header_chars[1]);
            proof {
                assert(value@ =~= header@.subrange(0, 2));
            }
            return Err(StandardReadError::Sus(SusError::InvalidValue { line, value }));
        },
    };
    let tick = match parse_chars(slice_subrange(header_chars.as_slice(), 2, 5), 16, u64::MAX) {
        Some(tick) => tick,
        None => return Err(report(line, data, ReadFailure::Malformed)),
    };
    let ticks_per_measure = match ticks_per_beat.checked_mul(4) {
        Some(ticks) => ticks,
        None => return Err(StandardReadError::Sus(SusError::InvalidValue { line, value: decimal(ticks_per_beat) })),
    };
    let position = match timeline.position(measure, tick, ticks_per_measure) {
        Ok(position) => position,
        Err(error) => return Err(report(line, data, ReadFailure::Chart(error))),
    };
    if tempo {
        return Ok(StandardRead::Tempo(position));
    }
    slice_check(data, 0, 2)?;
    let code = match parse_unsigned(slice_subrange(bytes, 0, 2), 16, 255) {
        Some(code) => code,
        None => return Err(report(line, data, ReadFailure::InvalidData)),
    };
    let lane = lane_at(line, data, 2)?;
    let xlair = mode == ChartMode::Xlair;
    let note = if code == 1 {
        StandardReadNote::Tap(TapKind::Tap)
    } else if code == 2 {
        if xlair {
            StandardReadNote::Tap(TapKind::XTap)
        } else {
            StandardReadNote::ExTap(ExDirection::Up)
        }
    } else if code == 3 {
        StandardReadNote::Tap(TapKind::Flick { direction: None })
    } else if code == 16 {
        if xlair {
            return Ok(StandardRead::Dropped(String::from_str("damage note in XLAIR mode")));
        }
        StandardReadNote::Mine
    } else if code == 5 {
        StandardReadNote::Hold(end_at(line, data, 10, position, ticks_per_beat)?)
    } else if code == 6 {
        let end = end_at(line, data, 14, position, ticks_per_beat)?;
        StandardReadNote::Slide(end, lane_at(line, data, 10)?)
    } else if code == 7 || code == 9 {
        if xlair {
            return Ok(StandardRead::Dropped(String::from_str("AIR notation in XLAIR mode")));
        }
        let direction = if code == 7 {
            AirDirection::Up
        } else {
            AirDirection::Down
        };
        StandardReadNote::Air(direction, target_at(data, 6))
    } else if code == 8 {
        if xlair {
            return Ok(StandardRead::Dropped(String::from_str("AIR notation in XLAIR mode")));
        }
        StandardReadNote::AirHold(end_at(line, data, 10, position, ticks_per_beat)?, target_at(data, 10))
    } else {
        return Err(report(line, data, ReadFailure::InvalidData));
    };
    Ok(StandardRead::Note(position, lane, note))
}

/// The last of the notes whose ends are given that ends at `position` on
/// `lane`: each note is given by where its last point stands, if it is a
/// slide, or by nothing.
pub fn slide_ending_at(ends: &Vec<Option<(Position, Lane)>>, position: Position, lane: Lane) -> (found: Option<usize>)
    ensures
        match found {
            Some(i) => {
                &&& i < ends@.len()
                &&& ends@[i as int] == Some((position, lane))
                &&& forall|j: int| i < j < ends@.len() ==> ends@[j] != Some((position, lane))
            },
            None => forall|j: int| 0 <= j < ends@.len() ==> ends@[j] != Some((position, lane)),
        },
{
    let mut k = ends.len();
    while k > 0
        invariant
            k <= ends@.len(),
            forall|j: int| k <= j < ends@.len() ==> ends@[j] != Some((position, lane)),
        decreases k,
    {
        k -= 1;
        match ends[k] {
            Some((end, end_lane)) => {
                if end == position && end_lane == lane {
                    return Some(k);
                }
            },
            None => {},
        }
    }
    None
}

} // verus!
