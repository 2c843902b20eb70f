//! The record that a C2S document writes for a note whose heights it does
//! not write: every note but AIR slides and AIR crushes.

use vstd::prelude::*;
use vstd::string::{StringExecFns, StringSliceAdditionalSpecFns};

use crate::air_parent::{parent_letters, StandardParent};
use crate::c2s::{
    c2s_duration, c2s_fails_as, c2s_lane, c2s_location, dec, duration_ticks, encode_air_color, encode_air_direction,
    encode_ex_direction, ex_direction_text, air_color_text, air_direction_text, invalid_value, output_position,
    side_lane_failure, slide_text, unsupported, write_slide, C2sError, C2sFailure, air_crush_color_text, c2s_ticks,
    encode_air_crush_color, output_ticks,
};
use crate::chart::ChartMode;
use crate::note::{AirColor, AirCrushColor, AirCrushInterval, AirDirection, ExDirection, Lane, SlidePoint, TapKind};
use crate::position::Position;
use crate::record_order::{indices, key_order, key_views, record_order};
use crate::text::push_digits;

verus! {

/// The note that an AIR note stands on, as C2S names it.
#[derive(Clone, Copy, Debug, PartialEq, Eq, Structural)]
pub enum C2sParent {
    /// A note of a kind that C2S names.
    Kind(StandardParent),
    /// A note of a kind that C2S cannot name.
    Unsupported,
    /// No note of the chart.
    Missing,
}

/// What C2S writes of a note, besides where it starts and on which lane.
#[derive(Debug)]
pub enum C2sNote {
    Tap(TapKind),
    ExTap(ExDirection),
    Mine,
    /// A hold that ends at the position given.
    Hold(Position),
    /// An Ex hold that ends at the position given.
    ExHold(Position, ExDirection),
    /// A slide through the points given.
    Slide(Vec<SlidePoint>),
    /// An Ex slide through the points given.
    ExSlide(Vec<SlidePoint>, ExDirection),
    /// An AIR note with its direction, if it has one, and color, on the
    /// parent given.
    Air(Option<AirDirection>, AirColor, C2sParent),
    /// An AIR hold that ends at the position given, with its color, on the
    /// parent given.
    AirHold(Position, AirColor, C2sParent),
}

/// The measure, tick, lane start and width, each after a tab.
pub open spec fn location_fields(measure: nat, tick: nat, lane: u8, width: u8) -> Seq<char> {
    "\t"@ + dec(measure) + "\t"@ + dec(tick) + "\t"@ + dec(lane as nat) + "\t"@ + dec(width as nat)
}

/// The three letters of the parent of an AIR note.
pub open spec fn parent_text(parent: C2sParent) -> Result<Seq<char>, C2sFailure> {
    match parent {
        C2sParent::Kind(kind) => Ok(parent_letters(kind)),
        C2sParent::Unsupported => Err(C2sFailure::Unsupported("unsupported AIR parent"@)),
        C2sParent::Missing => Err(C2sFailure::InvalidParent),
    }
}

/// The record that C2S writes for a note at `position` on `lane`; the
/// records of a slide, one per segment.
pub open spec fn c2s_note_text(position: Position, lane: Lane, mode: ChartMode, note: C2sNote) -> Result<
    Seq<char>,
    C2sFailure,
> {
    if mode is Xlair && (note is Air || note is AirHold) {
        Err(C2sFailure::Unsupported("AIR notation in XLAIR mode"@))
    } else {
        match c2s_location(position) {
            None => Err(C2sFailure::Unrepresentable),
            Some((measure, tick)) => match lane {
                Lane::Side(_) => Err(side_lane_failure()),
                Lane::Slider { start, width } => {
                    let fields = location_fields(measure, tick, start, width);
                    match note {
                        C2sNote::Tap(TapKind::Tap) => Ok("TAP"@ + fields),
                        C2sNote::Tap(TapKind::XTap) => Ok("CHR"@ + fields + "\tUP"@),
                        C2sNote::Tap(TapKind::Flick { direction: None }) => Ok("FLK"@ + fields),
                        C2sNote::Tap(TapKind::Flick { direction: Some(_) }) => Err(
                            C2sFailure::Unsupported("directional Flick cannot be represented by C2S"@),
                        ),
                        C2sNote::Tap(_) => Err(C2sFailure::Unsupported("SUS tap variant cannot be represented by C2S"@)),
                        C2sNote::ExTap(direction) => match ex_direction_text(direction) {
                            Some(code) => Ok("CHR"@ + fields + "\t"@ + code),
                            None => Err(C2sFailure::Unsupported("diagonal Ex direction"@)),
                        },
                        C2sNote::Mine => Ok("MNE"@ + fields),
                        C2sNote::Hold(end) => match c2s_duration(position, end) {
                            Some(duration) => Ok("HLD"@ + fields + "\t"@ + dec(duration)),
                            None => Err(C2sFailure::Unrepresentable),
                        },
                        C2sNote::ExHold(end, direction) => if mode is Xlair {
                            match c2s_duration(position, end) {
                                Some(duration) => Ok("HLD"@ + fields + "\t"@ + dec(duration)),
                                None => Err(C2sFailure::Unrepresentable),
                            }
                        } else {
                            match ex_direction_text(direction) {
                                None => Err(C2sFailure::Unsupported("diagonal Ex direction"@)),
                                Some(code) => match c2s_duration(position, end) {
                                    Some(duration) => Ok("HXD"@ + fields + "\t"@ + dec(duration) + "\t"@ + code),
                                    None => Err(C2sFailure::Unrepresentable),
                                },
                            }
                        },
                        C2sNote::Slide(points) => slide_text(points@, None),
                        C2sNote::ExSlide(points, direction) => if mode is Xlair {
                            slide_text(points@, None)
                        } else {
                            slide_text(points@, Some(direction))
                        },
                        C2sNote::Air(direction, color, parent) => match direction {
                            None => Err(C2sFailure::Unsupported("AIR direction is missing"@)),
                            Some(direction) => match parent_text(parent) {
                                Err(failure) => Err(failure),
                                Ok(letters) => Ok(
                                    air_direction_text(direction) + fields + "\t"@ + letters + "\t"@ + air_color_text(
                                        color,
                                    ),
                                ),
                            },
                        },
                        C2sNote::AirHold(end, color, parent) => match parent_text(parent) {
                            Err(failure) => Err(failure),
                            Ok(letters) => match c2s_duration(position, end) {
                                None => Err(C2sFailure::Unrepresentable),
                                Some(duration) => Ok(
                                    "AHD"@ + fields + "\t"@ + letters + "\t"@ + dec(duration) + "\t"@ + air_color_text(
                                        color,
                                    ),
                                ),
                            },
                        },
                    }
                },
            },
        }
    }
}

/// Appends `n` in decimal after a tab.
fn push_number(out: &mut String, n: u64)
    ensures
        final(out)@ == old(out)@ + "\t"@ + dec(n as nat),
{
    out.append("\t");
    push_digits(out, n, 10);
}

/// The record name followed by the location fields.
fn record_head(name: &str, measure: u32, tick: u64, lane: u8, width: u8) -> (text: String)
    ensures
        text@ == name@ + location_fields(measure as nat, tick as nat, lane, width),
{
    let mut text = String::from_str(name);
    push_number(&mut text, measure as u64);
    push_number(&mut text, tick);
    push_number(&mut text, lane as u64);
    push_number(&mut text, width as u64);
    proof {
        assert(text@ =~= name@ + location_fields(measure as nat, tick as nat, lane, width));
    }
    text
}

/// The three letters of the parent of an AIR note.
fn parent_code(parent: C2sParent) -> (result: Result<&'static str, C2sError>)
    ensures
        match parent_text(parent) {
            Ok(letters) => result matches Ok(code) && code@ == letters,
            Err(C2sFailure::Unsupported(text)) => result matches Err(C2sError::UnsupportedRecord { line, record })
                && line == 0 && record@ == text,
            Err(C2sFailure::InvalidParent) => result matches Err(C2sError::InvalidValue { line, value }) && line == 0
                && value@ == "invalid note parent"@,
            Err(C2sFailure::Unrepresentable) => false,
        },
{
    match parent {
        C2sParent::Kind(kind) => Ok(kind.code()),
        C2sParent::Unsupported => Err(unsupported("unsupported AIR parent")),
        C2sParent::Missing => Err(invalid_value(0, "invalid note parent")),
    }
}

/// Writes the record of a note at `position` on `lane` in `mode`, for every
/// note but AIR slides and crushes; a slide gives one record per segment.
pub fn c2s_note_line(position: Position, lane: Lane, mode: ChartMode, note: &C2sNote) -> (result: Result<String, C2sError>)
    ensures
        match c2s_note_text(position, lane, mode, *note) {
            Ok(text) => result matches Ok(s) && s@ == text,
            Err(failure) => c2s_fails_as(result, failure),
        },
{
    let xlair = mode == ChartMode::Xlair;
    if xlair && (matches!(note, C2sNote::Air(..)) || matches!(note, C2sNote::AirHold(..))) {
        return Err(unsupported("AIR notation in XLAIR mode"));
    }
    let (measure, tick) = output_position(position)?;
    let (start, width) = c2s_lane(lane)?;
    let ghost fields = location_fields(measure as nat, tick as nat, start, width);
    match note {
        C2sNote::Tap(kind) => match kind {
            TapKind::Tap => Ok(record_head("TAP", measure, tick, start, width)),
            TapKind::XTap => {
                let mut text = record_head("CHR", measure, tick, start, width);
                text.append("\tUP");
                Ok(text)
            },
            TapKind::Flick { direction } => match direction {
                None => Ok(record_head("FLK", measure, tick, start, width)),
                Some(_) => Err(unsupported("directional Flick cannot be represented by C2S")),
            },
            _ => Err(unsupported("SUS tap variant cannot be represented by C2S")),
        },
        C2sNote::ExTap(direction) => {
            let code = encode_ex_direction(*direction)?;
            let mut text = record_head("CHR", measure, tick, start, width);
            text.append("\t");
            text.append(code);
            Ok(text)
        },
        C2sNote::Mine => Ok(record_head("MNE", measure, tick, start, width)),
        C2sNote::Hold(end) => {
            let duration = duration_ticks(position, *end)?;
            let mut text = record_head("HLD", measure, tick, start, width);
            push_number(&mut text, duration);
            Ok(text)
        },
        C2sNote::ExHold(end, direction) => {
            if xlair {
                let duration = duration_ticks(position, *end)?;
                let mut text = record_head("HLD", measure, tick, start, width);
                push_number(&mut text, duration);
                return Ok(text);
            }
            let code = encode_ex_direction(*direction)?;
            let duration = duration_ticks(position, *end)?;
            let mut text = record_head("HXD", measure, tick, start, width);
            push_number(&mut text, duration);
            text.append("\t");
            text.append(code);
            Ok(text)
        },
        C2sNote::Slide(points) => write_slide(points.as_slice(), None),
        C2sNote::ExSlide(points, direction) => {
            if xlair {
                write_slide(points.as_slice(), None)
            } else {
                write_slide(points.as_slice(), Some(*direction))
            }
        },
        C2sNote::Air(direction, color, parent) => {
            let direction = match direction {
                Some(direction) => *direction,
                None => return Err(unsupported("AIR direction is missing")),
            };
            let letters = parent_code(*parent)?;
            let mut text = record_head(encode_air_direction(direction), measure, tick, start, width);
            text.append("\t");
            text.append(letters);
            text.append("\t");
            text.append(encode_air_color(*color));
            Ok(text)
        },
        C2sNote::AirHold(end, color, parent) => {
            let letters = parent_code(*parent)?;
            let duration = duration_ticks(position, *end)?;
            let mut text = record_head("AHD", measure, tick, start, width);
            text.append("\t");
            text.append(letters);
            push_number(&mut text, duration);
            text.append("\t");
            text.append(encode_air_color(*color));
            Ok(text)
        },
    }
}

/// The interval field of an AIR crush record: 0 for no combo points along
/// the path, 9600 for one at its start only, else the interval in ticks.
pub open spec fn crush_interval_ticks(interval: AirCrushInterval) -> Option<nat> {
    match interval {
        AirCrushInterval::Trace => Some(0),
        AirCrushInterval::Start => Some(9600),
        AirCrushInterval::Every(step) => c2s_ticks(step),
    }
}

/// The `ALD` record of an AIR crush from `position` on `lane` to `end` on
/// `end_lane`, with its heights as written and its color.
pub open spec fn crush_text(
    position: Position,
    lane: Lane,
    interval: AirCrushInterval,
    start_height: Seq<char>,
    end: Position,
    end_lane: Lane,
    end_height: Seq<char>,
    color: AirCrushColor,
) -> Result<Seq<char>, C2sFailure> {
    match c2s_location(position) {
        None => Err(C2sFailure::Unrepresentable),
        Some((measure, tick)) => match (lane, end_lane) {
            (Lane::Side(_), _) => Err(side_lane_failure()),
            (_, Lane::Side(_)) => Err(side_lane_failure()),
            (Lane::Slider { start, width }, Lane::Slider { start: end_start, width: end_width }) => match (
                crush_interval_ticks(interval),
                c2s_duration(position, end),
            ) {
                (Some(every), Some(duration)) => Ok(
                    "ALD"@ + location_fields(measure, tick, start, width) + "\t"@ + dec(every) + "\t"@ + start_height
                        + "\t"@ + dec(duration) + "\t"@ + dec(end_start as nat) + "\t"@ + dec(end_width as nat) + "\t"@
                        + end_height + "\t"@ + air_crush_color_text(color),
                ),
                _ => Err(C2sFailure::Unrepresentable),
            },
        },
    }
}

/// Writes the `ALD` record of an AIR crush that starts at `position` on
/// `lane` and ends at `end` on `end_lane`; the heights come as the text
/// they are written as.
pub fn crush_line(
    position: Position,
    lane: Lane,
    interval: AirCrushInterval,
    start_height: &str,
    end: Position,
    end_lane: Lane,
    end_height: &str,
    color: AirCrushColor,
) -> (result: Result<String, C2sError>)
    ensures
        match crush_text(position, lane, interval, start_height@, end, end_lane, end_height@, color) {
            Ok(text) => result matches Ok(s) && s@ == text,
            Err(failure) => c2s_fails_as(result, failure),
        },
{
    let (measure, tick) = output_position(position)?;
    let (start, width) = c2s_lane(lane)?;
    let (end_start, end_width) = c2s_lane(end_lane)?;
    let every = match interval {
        AirCrushInterval::Trace => 0,
        AirCrushInterval::Start => 9600,
        AirCrushInterval::Every(step) => output_ticks(step)?,
    };
    let duration = duration_ticks(position, end)?;
    let mut text = record_head("ALD", measure, tick, start, width);
    push_number(&mut text, every);
    text.append("\t");
    text.append(start_height);
    push_number(&mut text, duration);
    push_number(&mut text, end_start as u64);
    push_number(&mut text, end_width as u64);
    text.append("\t");
    text.append(end_height);
    text.append("\t");
    text.append(encode_air_crush_color(color));
    proof {
        let (m, t) = c2s_location(position)->0;
        assert(text@ =~= "ALD"@ + location_fields(m, t, start, width) + "\t"@ + dec(every as nat) + "\t"@ + start_height@
            + "\t"@ + dec(duration as nat) + "\t"@ + dec(end_start as nat) + "\t"@ + dec(end_width as nat) + "\t"@
            + end_height@ + "\t"@ + air_crush_color_text(color));
    }
    Ok(text)
}

/// Writes the `SLA` record that puts a note on a speed group: where it
/// starts, its lane, how long it lasts and the group.
pub fn speed_group_line(measure: u32, tick: u64, lane: u8, width: u8, duration: u64, group: u32) -> (text: String)
    ensures
        text@ == "SLA"@ + location_fields(measure as nat, tick as nat, lane, width) + "\t"@ + dec(duration as nat)
            + "\t"@ + dec(group as nat),
{
    let mut text = record_head("SLA", measure, tick, lane, width);
    push_number(&mut text, duration);
    push_number(&mut text, group as u64);
    text
}

/// A record of a C2S document and what it is ordered by: where it stands,
/// then the order in which its note or change was given.
#[derive(Debug)]
pub struct C2sLine {
    pub measure: u32,
    pub tick: u64,
    pub order: u64,
    pub text: String,
}

/// What C2S records are ordered by.
pub open spec fn line_key(line: C2sLine) -> Seq<u64> {
    seq![line.measure as u64, line.tick, line.order]
}

/// The texts of the first `k` records of `order`, each on a line of its own.
pub open spec fn lines_in_order(lines: Seq<C2sLine>, order: Seq<int>, k: nat) -> Seq<char>
    decreases k,
{
    if k == 0 {
        Seq::empty()
    } else {
        lines_in_order(lines, order, (k - 1) as nat) + lines[order[k - 1]].text@ + "\n"@
    }
}

/// A C2S document: the resolution, then the records sorted by measure,
/// tick and order, records with equal keys in their given order.
pub open spec fn c2s_document_text(lines: Seq<C2sLine>) -> Seq<char> {
    let order = key_order(lines.map_values(|l: C2sLine| line_key(l)), lines.len());
    "RESOLUTION\t384\n"@ + lines_in_order(lines, order, order.len())
}

/// Puts a C2S document together from its records.
pub fn c2s_document(lines: &Vec<C2sLine>) -> (text: String)
    ensures
        text@ == c2s_document_text(lines@),
{
    let ghost keys_spec = lines@.map_values(|l: C2sLine| line_key(l));
    let mut keys: Vec<Vec<u64>> = Vec::new();
    let mut i: usize = 0;
    while i < lines.len()
        invariant
            i <= lines@.len(),
            keys_spec == lines@.map_values(|l: C2sLine| line_key(l)),
            keys@.len() == i,
            forall|j: int| 0 <= j < i ==> (#[trigger] keys@[j])@ == keys_spec[j],
        decreases lines@.len() - i,
    {
        let mut key: Vec<u64> = Vec::new();
        key.push(lines[i].measure as u64);
        key.push(lines[i].tick);
        key.push(lines[i].order);
        proof {
            assert(key@ =~= line_key(lines@[i as int]));
        }
        keys.push(key);
        i += 1;
    }
    proof {
        assert(key_views(keys@) =~= keys_spec);
    }
    let order = record_order(&keys);
    let ghost spec_order = key_order(keys_spec, lines@.len());
    let mut text = String::from_str("RESOLUTION\t384\n");
    let ghost head = text@;
    let mut k: usize = 0;
    while k < order.len()
        invariant
            k <= order@.len(),
            indices(order@) == spec_order,
            spec_order == key_order(keys_spec, lines@.len()),
            keys_spec == lines@.map_values(|l: C2sLine| line_key(l)),
            forall|j: int| 0 <= j < order@.len() ==> #[trigger] order@[j] < keys@.len(),
            keys@.len() == lines@.len(),
            text@ == head + lines_in_order(lines@, spec_order, k as nat),
        decreases order@.len() - k,
    {
        let index = order[k];
        proof {
            assert(spec_order[k as int] == index as int);
        }
        text.append(lines[index].text.as_str());
        text.append("\n");
        k += 1;
        proof {
            assert(text@ =~= head + lines_in_order(lines@, spec_order, k as nat));
        }
    }
    proof {
        assert(order@.len() == spec_order.len());
        reveal_strlit("RESOLUTION\t384\n");
    }
    text
}

} // verus!
