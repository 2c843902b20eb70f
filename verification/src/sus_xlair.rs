//! The data records that an XLAIR SUS document writes for one note.

use vstd::prelude::*;

use crate::note::{Lane, SideButton, SlidePoint, SlidePointKind, TapKind};
use crate::position::Position;
use crate::sus::{
    base36_digit, central_lane, lane_width, output_position, side_direction, side_direction_spec, side_lane,
    slide_point_byte, slide_point_text, tap_byte, tap_text, SusError,
};
use crate::sus_standard::LineFailure;
use crate::text::digit_byte;
use crate::timeline::MeasureTimeline;

verus! {

/// What an XLAIR SUS document writes of a note that is not an AIR note,
/// besides where it starts and on which lane.
#[derive(Debug)]
pub enum XlairNote {
    Tap(TapKind),
    ExTap,
    Mine,
    /// A hold or Ex hold that ends at the position given.
    Hold(Position),
    /// A slide or Ex slide through the points given.
    Slide(Vec<SlidePoint>),
}

/// One token of an XLAIR SUS document before it is laid out in its measure:
/// where it stands, the channel key and the token.
#[derive(Debug, PartialEq, Eq)]
pub struct SusRecord {
    pub measure: u32,
    pub tick: u64,
    pub key: String,
    pub token: String,
}

/// A record as plain values.
pub type RecordParts = (u32, u64, Seq<char>, Seq<char>);

impl SusRecord {
    /// The record's measure, tick, key and token.
    pub open spec fn parts(self) -> RecordParts {
        (self.measure, self.tick, self.key@, self.token@)
    }
}

/// The records as plain values.
pub open spec fn record_parts(records: Seq<SusRecord>) -> Seq<RecordParts> {
    records.map_values(|record: SusRecord| record.parts())
}

/// The base-36 digit of a lane value.
pub open spec fn digit(value: u8) -> char {
    digit_byte(value as nat) as char
}

/// The measure and tick at which XLAIR SUS writes a position, if any.
pub open spec fn xlair_location(timeline: MeasureTimeline, ticks_per_beat: nat, position: Position) -> Option<(u32, u64)> {
    match timeline.locate_spec(position, ticks_per_beat) {
        Ok(location) => Some(location),
        Err(_) => None,
    }
}

/// The token kind of point `index` of a slide of `count` points: the start,
/// the end, or the relay kind of the point.
pub open spec fn slide_token_kind(index: nat, count: nat, kind: SlidePointKind) -> char {
    if index == 0 {
        '1'
    } else if index + 1 == count {
        '2'
    } else {
        slide_point_text(kind) as char
    }
}

/// The records of the first `k` points of a slide on `channel`.
pub open spec fn slide_records(
    timeline: MeasureTimeline,
    ticks_per_beat: nat,
    channel: char,
    points: Seq<SlidePoint>,
    k: nat,
) -> Result<Seq<RecordParts>, LineFailure>
    decreases k,
{
    if k == 0 {
        Ok(Seq::empty())
    } else {
        match slide_records(timeline, ticks_per_beat, channel, points, (k - 1) as nat) {
            Err(failure) => Err(failure),
            Ok(records) => {
                let point = points[k - 1];
                match point.lane_spec() {
                    Lane::Side(_) => Err(LineFailure::Unsupported("slide"@)),
                    Lane::Slider { start, width } => match xlair_location(
                        timeline,
                        ticks_per_beat,
                        point.position_spec(),
                    ) {
                        None => Err(LineFailure::Unrepresentable),
                        Some((measure, tick)) => Ok(
                            records.push(
                                (
                                    measure,
                                    tick,
                                    seq!['3', digit(start), channel],
                                    seq![
                                        slide_token_kind((k - 1) as nat, points.len(), point.kind_spec()),
                                        digit(width),
                                    ],
                                ),
                            ),
                        ),
                    },
                }
            },
        }
    }
}

/// The records of a hold from `start` to `end` under `key`.
pub open spec fn hold_records(
    timeline: MeasureTimeline,
    ticks_per_beat: nat,
    start: Position,
    end: Position,
    key: Seq<char>,
    start_token: Seq<char>,
    end_token: Seq<char>,
) -> Result<Seq<RecordParts>, LineFailure> {
    match (xlair_location(timeline, ticks_per_beat, start), xlair_location(timeline, ticks_per_beat, end)) {
        (Some((sm, st)), Some((em, et))) => Ok(seq![(sm, st, key, start_token), (em, et, key, end_token)]),
        _ => Err(LineFailure::Unrepresentable),
    }
}

/// The records that XLAIR SUS writes for a note at `position` on `lane`,
/// with `channel` as its long-note channel.
pub open spec fn xlair_records(
    timeline: MeasureTimeline,
    ticks_per_beat: nat,
    position: Position,
    lane: Lane,
    channel: char,
    note: XlairNote,
) -> Result<Seq<RecordParts>, LineFailure> {
    match note {
        XlairNote::Tap(kind) => match xlair_location(timeline, ticks_per_beat, position) {
            None => Err(LineFailure::Unrepresentable),
            Some((measure, tick)) => if kind is Tap4 || kind is Tap5 || kind is Tap6 {
                Err(LineFailure::Unsupported("SUS tap variant outside XLAIR"@))
            } else {
                match lane {
                    Lane::Slider { start, width } => Ok(
                        seq![(measure, tick, seq!['1', digit(start)], seq![tap_text(kind) as char, digit(width)])],
                    ),
                    Lane::Side(button) => if kind is Tap {
                        Ok(
                            seq![
                                (
                                    measure,
                                    tick,
                                    seq!['5', digit(button.lane_start_spec())],
                                    seq![side_direction_spec(button), '1'],
                                ),
                            ],
                        )
                    } else {
                        Err(LineFailure::Unsupported("side ExTap/Flick"@))
                    },
                }
            },
        },
        XlairNote::ExTap => match xlair_location(timeline, ticks_per_beat, position) {
            None => Err(LineFailure::Unrepresentable),
            Some((measure, tick)) => match lane {
                Lane::Slider { start, width } => Ok(
                    seq![(measure, tick, seq!['1', digit(start)], seq!['2', digit(width)])],
                ),
                Lane::Side(_) => Err(LineFailure::Unsupported("ExTap"@)),
            },
        },
        XlairNote::Mine => Err(LineFailure::Unsupported("unsupported note kind"@)),
        XlairNote::Hold(end) => match lane {
            Lane::Slider { start, width } => hold_records(
                timeline,
                ticks_per_beat,
                position,
                end,
                seq!['3', digit(start), channel],
                seq!['1', digit(width)],
                seq!['2', digit(width)],
            ),
            Lane::Side(button) => hold_records(
                timeline,
                ticks_per_beat,
                position,
                end,
                seq!['2', digit(button.lane_start_spec()), channel],
                seq!['1', '1'],
                seq!['2', '1'],
            ),
        },
        XlairNote::Slide(points) => slide_records(timeline, ticks_per_beat, channel, points@, points@.len()),
    }
}

/// The error that `failure` is reported with.
pub open spec fn records_fail_as(result: Result<Vec<SusRecord>, SusError>, failure: LineFailure) -> bool {
    match failure {
        LineFailure::Unrepresentable => result matches Err(SusError::UnrepresentablePosition),
        LineFailure::Unsupported(text) => result matches Err(SusError::UnsupportedNote { note }) && note@ == text,
        LineFailure::InvalidParent => false,
    }
}

/// Slider lanes whose start and width are base-36 digits.
pub open spec fn base36_lane(lane: Lane) -> bool {
    match lane {
        Lane::Slider { start, width } => start < 36 && width < 36,
        Lane::Side(_) => true,
    }
}

/// The lane values that are written as digits are base-36 digits: those of
/// every slide point that is reached, and for another note its lane once
/// its records are made.
pub open spec fn xlair_codes_fit(
    timeline: MeasureTimeline,
    ticks_per_beat: nat,
    position: Position,
    lane: Lane,
    channel: char,
    note: XlairNote,
) -> bool {
    match note {
        XlairNote::Slide(points) => forall|j: int|
            0 <= j < points@.len() && slide_records(timeline, ticks_per_beat, channel, points@, (j + 1) as nat)
                is Ok ==> base36_lane(#[trigger] points@[j].lane_spec()),
        _ => xlair_records(timeline, ticks_per_beat, position, lane, channel, note) is Ok ==> base36_lane(lane),
    }
}

/// The text of two characters.
fn pair(first: char, second: char) -> (text: String)
    ensures
        text@ == seq![first, second],
{
    let mut text = String::new();
    text.push(first);
    text.push(second);
    proof {
        assert(text@ =~= seq![first, second]);
    }
    text
}

/// The text of three characters.
fn triple(first: char, second: char, third: char) -> (text: String)
    ensures
        text@ == seq![first, second, third],
{
    let mut text = pair(first, second);
    text.push(third);
    proof {
        assert(text@ =~= seq![first, second, third]);
    }
    text
}

/// The record at a location.
fn record_at(location: (u32, u64), key: String, token: String) -> (record: SusRecord)
    ensures
        record.parts() == (location.0, location.1, key@, token@),
{
    SusRecord { measure: location.0, tick: location.1, key, token }
}

/// The two records of a hold, under the key `keys`, which are equal.
fn hold(
    timeline: &MeasureTimeline,
    ticks_per_beat: u64,
    start: Position,
    end: Position,
    keys: (String, String),
    tokens: (String, String),
) -> (result: Result<Vec<SusRecord>, SusError>)
    requires
        keys.0@ == keys.1@,
    ensures
        match hold_records(*timeline, ticks_per_beat as nat, start, end, keys.0@, tokens.0@, tokens.1@) {
            Ok(records) => result matches Ok(v) && record_parts(v@) == records,
            Err(failure) => records_fail_as(result, failure),
        },
{
    let ghost key = keys.0@;
    let ghost start_token = tokens.0@;
    let ghost end_token = tokens.1@;
    let first = output_position(timeline, start, ticks_per_beat)?;
    let last = output_position(timeline, end, ticks_per_beat)?;
    let mut records = Vec::new();
    records.push(record_at(first, keys.0, tokens.0));
    records.push(record_at(last, keys.1, tokens.1));
    proof {
        assert(record_parts(records@) =~= seq![
            (first.0, first.1, key, start_token),
            (last.0, last.1, key, end_token),
        ]);
    }
    Ok(records)
}

/// Once a point of a slide cannot be written, neither can the slide.
proof fn lemma_slide_fails(timeline: MeasureTimeline, ticks_per_beat: nat, channel: char, points: Seq<SlidePoint>, k: nat, n: nat)
    requires
        1 <= k <= n,
        slide_records(timeline, ticks_per_beat, channel, points, k) is Err,
    ensures
        slide_records(timeline, ticks_per_beat, channel, points, n) == slide_records(
            timeline,
            ticks_per_beat,
            channel,
            points,
            k,
        ),
    decreases n - k,
{
    if n > k {
        lemma_slide_fails(timeline, ticks_per_beat, channel, points, k, (n - 1) as nat);
    }
}

/// The records of a slide.
fn slide(timeline: &MeasureTimeline, ticks_per_beat: u64, channel: char, points: &Vec<SlidePoint>) -> (result: Result<
    Vec<SusRecord>,
    SusError,
>)
    requires
        forall|j: int|
            0 <= j < points@.len() && slide_records(*timeline, ticks_per_beat as nat, channel, points@, (j + 1) as nat)
                is Ok ==> base36_lane(#[trigger] points@[j].lane_spec()),
    ensures
        match slide_records(*timeline, ticks_per_beat as nat, channel, points@, points@.len()) {
            Ok(records) => result matches Ok(v) && record_parts(v@) == records,
            Err(failure) => records_fail_as(result, failure),
        },
{
    let ghost tpb = ticks_per_beat as nat;
    let mut records: Vec<SusRecord> = Vec::new();
    let mut k: usize = 0;
    proof {
        assert(record_parts(records@) =~= Seq::<RecordParts>::empty());
    }
    while k < points.len()
        invariant
            k <= points@.len(),
            forall|j: int|
                0 <= j < points@.len() && slide_records(*timeline, tpb, channel, points@, (j + 1) as nat) is Ok
                    ==> base36_lane(#[trigger] points@[j].lane_spec()),
            tpb == ticks_per_beat as nat,
            slide_records(*timeline, tpb, channel, points@, k as nat) == Ok::<Seq<RecordParts>, LineFailure>(
                record_parts(records@),
            ),
        decreases points@.len() - k,
    {
        let point = points[k];
        let start = match central_lane(point.lane(), "slide") {
            Ok(start) => start,
            Err(error) => {
                proof {
                    lemma_slide_fails(*timeline, tpb, channel, points@, (k + 1) as nat, points@.len());
                }
                return Err(error);
            },
        };
        let location = match output_position(timeline, point.position(), ticks_per_beat) {
            Ok(location) => location,
            Err(error) => {
                proof {
                    lemma_slide_fails(*timeline, tpb, channel, points@, (k + 1) as nat, points@.len());
                }
                return Err(error);
            },
        };
        proof {
            assert(slide_records(*timeline, tpb, channel, points@, (k + 1) as nat) is Ok);
            assert(base36_lane(points@[k as int].lane_spec()));
        }
        let kind = if k == 0 {
            '1'
        } else if k + 1 == points.len() {
            '2'
        } else {
            slide_point_byte(*point.kind()) as char
        };
        let key = triple('3', base36_digit(start), channel);
        let width = match lane_width(point.lane()) {
            Ok(width) => width,
            Err(error) => return Err(error),
        };
        let token = pair(kind, base36_digit(width));
        let ghost before = records@;
        let record = record_at(location, key, token);
        let ghost parts = record.parts();
        proof {
            assert(kind == slide_token_kind(k as nat, points@.len(), point.kind_spec()));
            assert(parts == (
                location.0,
                location.1,
                seq!['3', digit(start), channel],
                seq![slide_token_kind(k as nat, points@.len(), point.kind_spec()), digit(width)],
            ));
        }
        records.push(record);
        proof {
            assert(record_parts(records@) =~= record_parts(before).push(parts));
        }
        k += 1;
    }
    Ok(records)
}

/// Makes the records of a note that is not an AIR note, at `position` on
/// `lane`, with `channel` as its long-note channel: a tap or Ex tap gives
/// one record, a hold its start and end, a slide one record per point.
pub fn xlair_note_records(
    timeline: &MeasureTimeline,
    ticks_per_beat: u64,
    position: Position,
    lane: Lane,
    channel: char,
    note: &XlairNote,
) -> (result: Result<Vec<SusRecord>, SusError>)
    requires
        xlair_codes_fit(*timeline, ticks_per_beat as nat, position, lane, channel, *note),
    ensures
        match xlair_records(*timeline, ticks_per_beat as nat, position, lane, channel, *note) {
            Ok(records) => result matches Ok(v) && record_parts(v@) == records,
            Err(failure) => records_fail_as(result, failure),
        },
{
    match note {
        XlairNote::Tap(kind) => {
            let location = output_position(timeline, position, ticks_per_beat)?;
            if matches!(kind, TapKind::Tap4 | TapKind::Tap5 | TapKind::Tap6) {
                return Err(SusError::UnsupportedNote { note: String::from_str("SUS tap variant outside XLAIR") });
            }
            let record = match lane {
                Lane::Slider { start, width } => record_at(
                    location,
                    pair('1', base36_digit(start)),
                    pair(tap_byte(*kind) as char, base36_digit(width)),
                ),
                Lane::Side(button) => {
                    if !matches!(kind, TapKind::Tap) {
                        return Err(SusError::UnsupportedNote { note: String::from_str("side ExTap/Flick") });
                    }
                    record_at(location, pair('5', base36_digit(side_lane(button))), pair(side_direction(button), '1'))
                },
            };
            let mut records = Vec::new();
            records.push(record);
            proof {
                assert(record_parts(records@) =~= seq![record.parts()]);
            }
            Ok(records)
        },
        XlairNote::ExTap => {
            let location = output_position(timeline, position, ticks_per_beat)?;
            let start = central_lane(lane, "ExTap")?;
            let key = pair('1', base36_digit(start));
            let width = lane_width(lane)?;
            let record = record_at(location, key, pair('2', base36_digit(width)));
            let mut records = Vec::new();
            records.push(record);
            proof {
                assert(record_parts(records@) =~= seq![record.parts()]);
            }
            Ok(records)
        },
        XlairNote::Mine => Err(SusError::UnsupportedNote { note: String::from_str("unsupported note kind") }),
        XlairNote::Hold(end) => {
            if output_position(timeline, position, ticks_per_beat).is_err() || output_position(
                timeline,
                *end,
                ticks_per_beat,
            ).is_err() {
                return Err(SusError::UnrepresentablePosition);
            }
            match lane {
                Lane::Slider { start, width } => hold(
                    timeline,
                    ticks_per_beat,
                    position,
                    *end,
                    (triple('3', base36_digit(start), channel), triple('3', base36_digit(start), channel)),
                    (pair('1', base36_digit(width)), pair('2', base36_digit(width))),
                ),
                Lane::Side(button) => {
                    let lane_digit = base36_digit(side_lane(button));
                    hold(
                        timeline,
                        ticks_per_beat,
                        position,
                        *end,
                        (triple('2', lane_digit, channel), triple('2', lane_digit, channel)),
                        (pair('1', '1'), pair('2', '1')),
                    )
                },
            }
        },
        XlairNote::Slide(points) => slide(timeline, ticks_per_beat, channel, points),
    }
}

} // verus!
