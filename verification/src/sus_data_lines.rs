//! Reading SUS data lines: a header of a three-digit measure and a channel
//! kind, then data of two-byte tokens spread evenly over the measure.

use vstd::prelude::*;
use vstd::string::{StringExecFns, StringSliceAdditionalSpecFns};
use vstd::utf8::{decode_utf8, encode_utf8, valid_utf8};

use crate::chart::ChartMode;
use crate::error::ChartError;
use crate::note::{valid_slider, ExDirection, Lane, SideButton, TapKind};
use crate::position::Position;
use crate::sus::{
    base36, base36_byte, invalid_token, low_byte, parse_position, position_text_spec, positions, side_button,
    side_button_code, side_button_of, standard_direction, standard_direction_code, tap_code, tap_kind, token_positions,
    SusError,
};
use crate::text::{ascii_chars, chars_of, decimal, digit_value, digits_of, parse_chars, parse_chars_spec};
use crate::timeline::MeasureTimeline;

verus! {

/// The kinds of note channels of a data line.
#[derive(Clone, Copy, Debug, PartialEq, Eq, Structural)]
pub enum ChannelKind {
    /// Taps: kind `1`.
    Short,
    /// XLAIR side-button holds: kind `2` in XLAIR mode.
    SideLong,
    /// Holds: kind `2` otherwise.
    CentralHold,
    /// Slides: kinds `3` and `4`.
    Slider,
    /// Ex taps, or XLAIR side-button taps: kind `5`.
    Directional,
}

/// What a data line holds.
#[derive(Debug, PartialEq, Eq)]
pub enum DataLine {
    /// The length of the measure given.
    MeasureLength(u32, Position),
    /// Tempo changes in the measure given.
    Tempo(u32),
    /// Note tokens of a channel kind on a lane, with the channel letter of
    /// long notes, at the positions given.
    Channel(ChannelKind, u8, Option<char>, Vec<Position>),
}

/// What a data line holds, as plain values.
pub enum DataLineParts {
    MeasureLength(u32, Position),
    Tempo(u32),
    Channel(ChannelKind, u8, Option<char>, Seq<Position>),
}

impl DataLine {
    /// The line as plain values.
    pub open spec fn parts(self) -> DataLineParts {
        match self {
            DataLine::MeasureLength(measure, length) => DataLineParts::MeasureLength(measure, length),
            DataLine::Tempo(measure) => DataLineParts::Tempo(measure),
            DataLine::Channel(kind, lane, channel, positions) => DataLineParts::Channel(
                kind,
                lane,
                channel,
                positions@,
            ),
        }
    }
}

/// Why a data line is not read.
#[derive(Debug, PartialEq)]
pub enum DataLineFault {
    /// The line is in error.
    Sus(SusError),
    /// The channel kind has no second character to read the lane from.
    NoLaneDigit,
    /// A long-note channel kind has no third character to name its channel.
    NoChannel,
}

/// Why reading a data line fails.
pub enum DataFailure {
    Malformed,
    /// A value is invalid: reported with the text given.
    InvalidText(Seq<char>),
    /// The command is not supported: reported with the text given.
    Unsupported(Seq<char>),
    Chart(ChartError),
}

/// How reading a data line stops short.
pub enum DataStop {
    Fails(DataFailure),
    NoLaneDigit,
    NoChannel,
}

/// The error that `stop` is reported with on line `line`.
pub open spec fn data_stops_as(fault: DataLineFault, stop: DataStop, line: usize) -> bool {
    match stop {
        DataStop::Fails(failure) => fault matches DataLineFault::Sus(error) && match failure {
            DataFailure::Malformed => error == SusError::MalformedCommand { line },
            DataFailure::InvalidText(text) => error matches SusError::InvalidValue { line: l, value } && l == line
                && value@ == text,
            DataFailure::Unsupported(text) => error matches SusError::UnsupportedCommand { line: l, command } && l
                == line && command@ == text,
            DataFailure::Chart(e) => error == SusError::Chart { line, source: e },
        },
        DataStop::NoLaneDigit => fault == DataLineFault::NoLaneDigit,
        DataStop::NoChannel => fault == DataLineFault::NoChannel,
    }
}

/// The header begins with three ASCII digits.
pub open spec fn data_header(header: Seq<char>) -> bool {
    header.len() >= 3 && forall|i: int| 0 <= i < 3 ==> '0' <= #[trigger] header[i] && header[i] <= '9'
}

/// What a data line with this header and data holds, with `measure_base`
/// added to its measure, in `mode`.
pub open spec fn data_line_read(
    measure_base: u32,
    timeline: MeasureTimeline,
    mode: ChartMode,
    header: Seq<char>,
    data: Seq<char>,
) -> Result<DataLineParts, DataStop> {
    let h = header;
    match parse_chars_spec(h.subrange(0, 3), 10, u32::MAX as nat) {
        None => Err(DataStop::Fails(DataFailure::Malformed)),
        Some(offset) => if measure_base + offset > u32::MAX {
            Err(DataStop::Fails(DataFailure::InvalidText(h.subrange(0, 3))))
        } else {
            let measure = (measure_base + offset) as u32;
            let kind = h.skip(3);
            let command = "#"@ + h + ": "@ + data;
            if kind == "02"@ {
                match position_text_spec(data) {
                    Some(length) => Ok(DataLineParts::MeasureLength(measure, length)),
                    None => Err(DataStop::Fails(DataFailure::InvalidText(data))),
                }
            } else if kind == "08"@ {
                Ok(DataLineParts::Tempo(measure))
            } else if encode_utf8(header).len() != 5 && encode_utf8(header).len() != 6 {
                Err(DataStop::Fails(DataFailure::Unsupported(command)))
            } else if kind.len() < 2 {
                Err(DataStop::NoLaneDigit)
            } else {
                match digit_value(low_byte(kind[1]), 36) {
                    None => Err(DataStop::Fails(DataFailure::InvalidText(seq![low_byte(kind[1]) as char]))),
                    Some(lane) => {
                        let bytes = encode_utf8(data);
                        if bytes.len() % 2 != 0 {
                            Err(DataStop::Fails(DataFailure::InvalidText(data)))
                        } else {
                            match token_positions(timeline, measure as nat, bytes.len() / 2, bytes.len() / 2) {
                                Err(error) => Err(DataStop::Fails(DataFailure::Chart(error))),
                                Ok(found) => {
                                    let channel = if kind.len() > 2 {
                                        Some(kind[2])
                                    } else {
                                        None
                                    };
                                    let note_kind = kind[0];
                                    if note_kind == '1' {
                                        Ok(DataLineParts::Channel(ChannelKind::Short, lane as u8, channel, found))
                                    } else if note_kind == '2' || note_kind == '3' || note_kind == '4' {
                                        if channel is None {
                                            Err(DataStop::NoChannel)
                                        } else {
                                            let channel_kind = if note_kind != '2' {
                                                ChannelKind::Slider
                                            } else if mode is Xlair {
                                                ChannelKind::SideLong
                                            } else {
                                                ChannelKind::CentralHold
                                            };
                                            Ok(DataLineParts::Channel(channel_kind, lane as u8, channel, found))
                                        }
                                    } else if note_kind == '5' {
                                        Ok(DataLineParts::Channel(ChannelKind::Directional, lane as u8, channel, found))
                                    } else {
                                        Err(DataStop::Fails(DataFailure::Unsupported(command)))
                                    }
                                },
                            }
                        }
                    },
                }
            }
        },
    }
}

/// Reads the header of a data line and the positions of its tokens: the
/// length of a measure, the tempo changes of a measure, or the tokens of a
/// note channel on a lane. Where the channel kind is too short for the
/// lane or the channel it needs, it says so.
pub fn read_data_line(
    line: usize,
    measure_base: u32,
    timeline: &MeasureTimeline,
    mode: ChartMode,
    header: &str,
    data: &str,
) -> (result: Result<DataLine, DataLineFault>)
    requires
        data_header(header@),
    ensures
        match data_line_read(measure_base, *timeline, mode, header@, data@) {
            Ok(parts) => result matches Ok(read) && read.parts() == parts,
            Err(stop) => result matches Err(fault) && data_stops_as(fault, stop, line),
        },
{
    let h = chars_of(header);
    let offset = match parse_chars(vstd::slice::slice_subrange(h.as_slice(), 0, 3), 10, u32::MAX as u64) {
        Some(offset) => offset as u32,
        None => return Err(DataLineFault::Sus(SusError::MalformedCommand { line })),
    };
    let measure = match measure_base.checked_add(offset) {
        Some(measure) => measure,
        None => {
            let mut value = String::new();
            value.push(h[0]);
            value.push(h[1]);
            value.push(h[2]);
            proof {
                assert(value@ =~= header@.subrange(0, 3));
            }
            return Err(DataLineFault::Sus(SusError::InvalidValue { line, value }));
        },
    };
    let ghost kind = header@.skip(3);
    let kind_len = h.len() - 3;
    proof {
        reveal_strlit("02");
        reveal_strlit("08");
    }
    if kind_len == 2 && h[3] == '0' && h[4] == '2' {
        proof {
            assert(kind =~= "02"@);
        }
        return match parse_position(data) {
            Ok(length) => Ok(DataLine::MeasureLength(measure, length)),
            Err(()) => Err(DataLineFault::Sus(SusError::InvalidValue { line, value: data.to_owned() })),
        };
    }
    proof {
        assert(kind != "02"@);
    }
    if kind_len == 2 && h[3] == '0' && h[4] == '8' {
        proof {
            assert(kind =~= "08"@);
        }
        return Ok(DataLine::Tempo(measure));
    }
    proof {
        assert(kind != "08"@);
    }
    let byte_len = header.as_bytes().len();
    if byte_len != 5 && byte_len != 6 {
        let mut command = String::from_str("#");
        command.append(header);
        command.append(": ");
        command.append(data);
        return Err(DataLineFault::Sus(SusError::UnsupportedCommand { line, command }));
    }
    if kind_len < 2 {
        return Err(DataLineFault::NoLaneDigit);
    }
    let lane = match base36(h[4], line) {
        Ok(lane) => lane,
        Err(error) => return Err(DataLineFault::Sus(error)),
    };
    let found = match positions(timeline, line, measure, data) {
        Ok(found) => found,
        Err(error) => return Err(DataLineFault::Sus(error)),
    };
    let channel = if kind_len > 2 {
        Some(h[5])
    } else {
        None
    };
    let note_kind = h[3];
    if note_kind == '1' {
        Ok(DataLine::Channel(ChannelKind::Short, lane, channel, found))
    } else if note_kind == '2' || note_kind == '3' || note_kind == '4' {
        if channel.is_none() {
            return Err(DataLineFault::NoChannel);
        }
        let channel_kind = if note_kind != '2' {
            ChannelKind::Slider
        } else if mode == ChartMode::Xlair {
            ChannelKind::SideLong
        } else {
            ChannelKind::CentralHold
        };
        Ok(DataLine::Channel(channel_kind, lane, channel, found))
    } else if note_kind == '5' {
        Ok(DataLine::Channel(ChannelKind::Directional, lane, channel, found))
    } else {
        let mut command = String::from_str("#");
        command.append(header);
        command.append(": ");
        command.append(data);
        Err(DataLineFault::Sus(SusError::UnsupportedCommand { line, command }))
    }
}

/// What a two-byte token of a note channel says.
#[derive(Clone, Copy, Debug, PartialEq, Eq)]
pub enum TokenRead {
    /// An empty token.
    Skip,
    /// A token the mode does not keep, named by the text.
    Dropped(&'static str),
    /// A tap of the kind given on the lane given.
    Tap(TapKind, Lane),
    /// An Ex tap in the direction given on the lane given.
    ExTap(ExDirection, Lane),
    /// An XLAIR side-button tap on the button given, written on the lane
    /// given.
    SideTap(SideButton, Lane),
    /// The start of a long note on the lane given.
    Open(Lane),
    /// The end of a long note.
    Close,
    /// A relay point of a long note.
    Relay,
    /// A slider token on the lane given, of the kind its first byte names.
    Slide(Lane, u8),
}

/// Why a token is not read.
pub enum TokenFailure {
    /// The token means nothing at its place.
    InvalidToken,
    /// A value is invalid: reported with the text given.
    InvalidText(Seq<char>),
    Chart(ChartError),
}

/// The error that `failure` is reported with on line `line` for `token`.
pub open spec fn token_fails_as(result: Result<TokenRead, SusError>, failure: TokenFailure, line: usize, token: Seq<u8>) -> bool {
    match failure {
        TokenFailure::InvalidToken => result matches Err(SusError::InvalidValue { line: l, value }) && l == line && (
        valid_utf8(token) ==> value@ == decode_utf8(token)),
        TokenFailure::InvalidText(text) => result matches Err(SusError::InvalidValue { line: l, value }) && l == line
            && value@ == text,
        TokenFailure::Chart(e) => result == Err::<TokenRead, SusError>(SusError::Chart { line, source: e }),
    }
}

/// The slider lane from `start` of `width` lanes, or the error the chart
/// gives.
pub open spec fn slider_lane(start: u8, width: u8) -> Result<Lane, ChartError> {
    if width == 0 {
        Err(ChartError::InvalidSliderLaneWidth)
    } else if !valid_slider(start, width) {
        Err(ChartError::InvalidSliderLane)
    } else {
        Ok(Lane::Slider { start, width })
    }
}

/// The lane of a token on `lane` whose second byte is its width.
pub open spec fn token_lane(lane: u8, width_byte: u8) -> Result<Lane, TokenFailure> {
    match digit_value(width_byte, 36) {
        None => Err(TokenFailure::InvalidText(seq![width_byte as char])),
        Some(width) => match slider_lane(lane, width as u8) {
            Ok(l) => Ok(l),
            Err(e) => Err(TokenFailure::Chart(e)),
        },
    }
}

/// What the token `first`, `second` of a channel of `kind` on `lane` says.
pub open spec fn token_read(mode: ChartMode, kind: ChannelKind, lane: u8, first: u8, second: u8) -> Result<
    TokenRead,
    TokenFailure,
> {
    if first == 48 {
        Ok(TokenRead::Skip)
    } else {
        match kind {
            ChannelKind::Short => if mode is Xlair && 52 <= first <= 54 {
                Ok(TokenRead::Dropped("unsupported tap variant in XLAIR mode"))
            } else {
                match tap_code(first) {
                    None => Err(TokenFailure::InvalidToken),
                    Some(tap) => match token_lane(lane, second) {
                        Ok(l) => Ok(TokenRead::Tap(tap, l)),
                        Err(f) => Err(f),
                    },
                }
            },
            ChannelKind::Directional => if mode is Normal {
                match standard_direction_code(first) {
                    None => Err(TokenFailure::InvalidToken),
                    Some(direction) => match token_lane(lane, second) {
                        Ok(l) => Ok(TokenRead::ExTap(direction, l)),
                        Err(f) => Err(f),
                    },
                }
            } else if first == 49 || first == 50 {
                Ok(TokenRead::Dropped("non-side AIR direction in XLAIR mode"))
            } else {
                match side_button_code(first) {
                    None => Err(TokenFailure::InvalidToken),
                    Some(button) => match token_lane(lane, second) {
                        Ok(l) => Ok(TokenRead::SideTap(button, l)),
                        Err(f) => Err(f),
                    },
                }
            },
            ChannelKind::SideLong => if first == 49 {
                match SideButton::from_lane_start_spec(lane) {
                    Some(button) => Ok(TokenRead::Open(Lane::Side(button))),
                    None => Err(TokenFailure::InvalidText(ascii_chars(digits_of(lane as nat, 10)))),
                }
            } else if first == 50 {
                Ok(TokenRead::Close)
            } else if first == 51 {
                Ok(TokenRead::Relay)
            } else {
                Err(TokenFailure::InvalidToken)
            },
            ChannelKind::CentralHold => match token_lane(lane, second) {
                Err(f) => Err(f),
                Ok(l) => if first == 49 {
                    Ok(TokenRead::Open(l))
                } else if first == 50 {
                    Ok(TokenRead::Close)
                } else if first == 51 {
                    Ok(TokenRead::Relay)
                } else {
                    Err(TokenFailure::InvalidToken)
                },
            },
            ChannelKind::Slider => match token_lane(lane, second) {
                Err(f) => Err(f),
                Ok(l) => if 49 <= first <= 53 {
                    Ok(TokenRead::Slide(l, first))
                } else {
                    Err(TokenFailure::InvalidToken)
                },
            },
        }
    }
}

/// Reads the lane of a token.
fn lane_of(line: usize, lane: u8, width_byte: u8) -> (result: Result<Lane, SusError>)
    ensures
        match token_lane(lane, width_byte) {
            Ok(l) => result == Ok::<Lane, SusError>(l),
            Err(TokenFailure::InvalidText(text)) => result matches Err(SusError::InvalidValue { line: l, value })
                && l == line && value@ == text,
            Err(TokenFailure::Chart(e)) => result == Err::<Lane, SusError>(SusError::Chart { line, source: e }),
            Err(TokenFailure::InvalidToken) => false,
        },
{
    let width = base36_byte(width_byte, line)?;
    match Lane::slider(lane, width) {
        Ok(l) => Ok(l),
        Err(source) => Err(SusError::Chart { line, source }),
    }
}

/// Reads a two-byte token of a note channel of `kind` on `lane`, in `mode`.
pub fn read_token(line: usize, mode: ChartMode, kind: ChannelKind, lane: u8, token: &[u8]) -> (result: Result<
    TokenRead,
    SusError,
>)
    requires
        token@.len() == 2,
    ensures
        match token_read(mode, kind, lane, token@[0], token@[1]) {
            Ok(read) => result == Ok::<TokenRead, SusError>(read),
            Err(failure) => token_fails_as(result, failure, line, token@),
        },
{
    let first = token[0];
    let second = token[1];
    if first == 48 {
        return Ok(TokenRead::Skip);
    }
    match kind {
        ChannelKind::Short => {
            if mode == ChartMode::Xlair && 52 <= first && first <= 54 {
                return Ok(TokenRead::Dropped("unsupported tap variant in XLAIR mode"));
            }
            let tap = match tap_kind(first) {
                Some(tap) => tap,
                None => return Err(invalid_token(line, token)),
            };
            Ok(TokenRead::Tap(tap, lane_of(line, lane, second)?))
        },
        ChannelKind::Directional => {
            if mode == ChartMode::Normal {
                let direction = match standard_direction(first) {
                    Some(direction) => direction,
                    None => return Err(invalid_token(line, token)),
                };
                return Ok(TokenRead::ExTap(direction, lane_of(line, lane, second)?));
            }
            if first == 49 || first == 50 {
                return Ok(TokenRead::Dropped("non-side AIR direction in XLAIR mode"));
            }
            let button = match side_button_of(first) {
                Some(button) => button,
                None => return Err(invalid_token(line, token)),
            };
            Ok(TokenRead::SideTap(button, lane_of(line, lane, second)?))
        },
        ChannelKind::SideLong => {
            if first == 49 {
                match side_button(lane) {
                    Some(button) => Ok(TokenRead::Open(Lane::Side(button))),
                    None => Err(SusError::InvalidValue { line, value: decimal(lane as u64) }),
                }
            } else if first == 50 {
                Ok(TokenRead::Close)
            } else if first == 51 {
                Ok(TokenRead::Relay)
            } else {
                Err(invalid_token(line, token))
            }
        },
        ChannelKind::CentralHold => {
            let l = lane_of(line, lane, second)?;
            if first == 49 {
                Ok(TokenRead::Open(l))
            } else if first == 50 {
                Ok(TokenRead::Close)
            } else if first == 51 {
                Ok(TokenRead::Relay)
            } else {
                Err(invalid_token(line, token))
            }
        },
        ChannelKind::Slider => {
            let l = lane_of(line, lane, second)?;
            if 49 <= first && first <= 53 {
                Ok(TokenRead::Slide(l, first))
            } else {
                Err(invalid_token(line, token))
            }
        },
    }
}

/// A side tap read at `position` from a data line on lane `region` hides
/// every central tap read at the same position on a lane that overlaps it.
pub open spec fn hidden_by_side_tap(regions: Seq<(Position, Lane)>, position: Position, lane: Lane) -> bool {
    exists|i: int| 0 <= i < regions.len() && #[trigger] regions[i].0 == position && regions[i].1.overlaps_spec(lane)
}

/// Whether a tap at `position` on `lane` is hidden by one of the side tap
/// regions read so far.
pub fn tap_hidden(regions: &Vec<(Position, Lane)>, position: Position, lane: Lane) -> (hidden: bool)
    ensures
        hidden == hidden_by_side_tap(regions@, position, lane),
{
    let mut i: usize = 0;
    while i < regions.len()
        invariant
            i <= regions@.len(),
            forall|j: int| 0 <= j < i ==> !(#[trigger] regions@[j].0 == position && regions@[j].1.overlaps_spec(lane)),
        decreases regions@.len() - i,
    {
        let (region_position, region_lane) = regions[i];
        if region_position == position && region_lane.overlaps(lane) {
            return true;
        }
        i += 1;
    }
    false
}

/// A note that a side tap may take the place of: where it is, its lane, and
/// whether it is a tap.
pub open spec fn replaced_by_side_tap(note: (Position, Lane, bool), position: Position, lane: Lane) -> bool {
    note.0 == position && lane.overlaps_spec(note.1) && note.2
}

/// The first note that a side tap read at `position` on `lane` takes the
/// place of: a tap at the same position whose lane overlaps.
pub fn first_replaced_tap(notes: &Vec<(Position, Lane, bool)>, position: Position, lane: Lane) -> (found: Option<usize>)
    ensures
        match found {
            Some(i) => i < notes@.len() && replaced_by_side_tap(notes@[i as int], position, lane) && forall|j: int|
                0 <= j < i ==> !replaced_by_side_tap(#[trigger] notes@[j], position, lane),
            None => forall|j: int| 0 <= j < notes@.len() ==> !replaced_by_side_tap(#[trigger] notes@[j], position, lane),
        },
{
    let mut i: usize = 0;
    while i < notes.len()
        invariant
            i <= notes@.len(),
            forall|j: int| 0 <= j < i ==> !replaced_by_side_tap(#[trigger] notes@[j], position, lane),
        decreases notes@.len() - i,
    {
        let (note_position, note_lane, is_tap) = notes[i];
        if note_position == position && lane.overlaps(note_lane) && is_tap {
            return Some(i);
        }
        i += 1;
    }
    None
}

} // verus!
