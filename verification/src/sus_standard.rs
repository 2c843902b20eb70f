//! The lines that a standard SUS document writes for one note.

use vstd::prelude::*;
use vstd::string::{StringExecFns, StringSliceAdditionalSpecFns};

use crate::air_parent::{parent_letters, StandardParent};
use crate::note::{AirDirection, ExDirection, Lane, SlidePoint, TapKind};
use crate::position::Position;
use crate::sus::{
    duration_ticks, output_position, record_line, standard_channel_line, standard_duration, standard_ex_direction,
    standard_ex_direction_spec, tap_byte, tap_text, SusError,
};
use crate::text::{ascii_chars, chars_of, decimal, digit_byte, digits_of, padded_digits, push_padded};
use crate::timeline::MeasureTimeline;

verus! {

/// What a standard SUS document writes of a note, besides where it starts
/// and on which lane.
pub enum StandardNote {
    Tap(TapKind),
    ExTap(ExDirection),
    Mine,
    /// A hold that ends at the position given.
    Hold(Position),
    /// A slide through the points given.
    Slide(Vec<SlidePoint>),
    /// An AIR note in the direction given, on a parent of the kind given;
    /// no kind where the note it names is not in the chart.
    Air(Option<AirDirection>, Option<StandardParent>),
    /// An AIR hold that ends at the position given, on a parent of the kind
    /// given, as for an AIR note.
    AirHold(Position, Option<StandardParent>),
    /// An AIR slide or crush, which standard SUS cannot write.
    AirPath,
}

/// Why the lines of a note cannot be written.
pub enum LineFailure {
    /// A position or duration does not fall on a tick that can be written.
    Unrepresentable,
    /// Standard SUS cannot write what the text names.
    Unsupported(Seq<char>),
    /// The AIR note's parent is not in the chart.
    InvalidParent,
}

/// The error that `failure` is reported with for the note `note_id`.
pub open spec fn fails_as(result: Result<Vec<String>, SusError>, failure: LineFailure, note_id: u32) -> bool {
    match failure {
        LineFailure::Unrepresentable => result matches Err(SusError::UnrepresentablePosition),
        LineFailure::Unsupported(text) => result matches Err(SusError::UnsupportedNote { note }) && note@ == text,
        LineFailure::InvalidParent => result matches Err(SusError::InvalidValue { line, value }) && line == 0
            && value@ == "invalid AIR parent for note "@ + ascii_chars(digits_of(note_id as nat, 10)),
    }
}

/// The upper-case form of a lower-case hexadecimal digit.
pub open spec fn upper(c: char) -> char {
    if c == 'a' {
        'A'
    } else if c == 'b' {
        'B'
    } else if c == 'c' {
        'C'
    } else if c == 'd' {
        'D'
    } else if c == 'e' {
        'E'
    } else if c == 'f' {
        'F'
    } else {
        c
    }
}

/// The text with its lower-case hexadecimal digits in upper case.
pub open spec fn uppercase(text: Seq<char>) -> Seq<char> {
    text.map_values(|c: char| upper(c))
}

/// `n` in upper-case hexadecimal, with leading zeros up to `width` digits.
pub open spec fn upper_hex(n: nat, width: nat) -> Seq<char> {
    uppercase(ascii_chars(padded_digits(n, 16, width)))
}

/// The start of a standard SUS note line: `#`, the measure in two
/// hexadecimal digits, the tick in three, and `: `.
pub open spec fn note_head(measure: nat, tick: nat) -> Seq<char> {
    "#"@ + upper_hex(measure, 2) + upper_hex(tick, 3) + ": "@
}

/// The lane start and width, each doubled and in two hexadecimal digits.
pub open spec fn lane_field(start: u8, width: u8) -> Seq<char> {
    upper_hex(start as nat * 2, 2) + upper_hex(width as nat * 2, 2)
}

/// The channel data line for a short note of kind `kind` on `lane` whose
/// token is `token_kind` and the lane width.
pub open spec fn channel_line_outcome(
    timeline: MeasureTimeline,
    position: Position,
    kind: char,
    lane: u8,
    token_kind: char,
    width: u8,
    ticks_per_beat: nat,
) -> Result<Seq<char>, LineFailure> {
    match timeline.locate_spec(position, ticks_per_beat) {
        Ok((measure, tick)) => match timeline.ticks_spec(measure as nat, ticks_per_beat) {
            Ok(slots) => if tick + 1 <= slots {
                Ok(
                    record_line(
                        measure as nat,
                        seq![kind, digit_byte(lane as nat) as char],
                        tick as nat,
                        seq![token_kind, digit_byte(width as nat) as char],
                        slots,
                    ),
                )
            } else {
                Err(LineFailure::Unrepresentable)
            },
            Err(_) => Err(LineFailure::Unrepresentable),
        },
        Err(_) => Err(LineFailure::Unrepresentable),
    }
}

/// The line of one slide segment, from `start` to `end`.
pub open spec fn segment_outcome(
    timeline: MeasureTimeline,
    ticks_per_beat: nat,
    ticks_per_measure: nat,
    start: SlidePoint,
    end: SlidePoint,
) -> Result<Seq<char>, LineFailure> {
    match (start.lane_spec(), end.lane_spec()) {
        (Lane::Slider { start: sl, width: sw }, Lane::Slider { start: el, width: ew }) => match timeline.locate_spec(
            start.position_spec(),
            ticks_per_beat,
        ) {
            Ok((measure, tick)) => match standard_duration(
                start.position_spec(),
                end.position_spec(),
                ticks_per_measure,
            ) {
                Some(duration) => Ok(
                    note_head(measure as nat, tick as nat) + "06"@ + lane_field(sl, sw) + upper_hex(duration, 4)
                        + lane_field(el, ew),
                ),
                None => Err(LineFailure::Unrepresentable),
            },
            Err(_) => Err(LineFailure::Unrepresentable),
        },
        (Lane::Side(_), _) => Err(LineFailure::Unsupported("side slide lane in standard SUS"@)),
        (_, Lane::Side(_)) => Err(LineFailure::Unsupported("side slide endpoint in standard SUS"@)),
    }
}

/// The lines of the first `k` segments of a slide through `points`.
pub open spec fn segments_outcome(
    timeline: MeasureTimeline,
    ticks_per_beat: nat,
    ticks_per_measure: nat,
    points: Seq<SlidePoint>,
    k: nat,
) -> Result<Seq<Seq<char>>, LineFailure>
    decreases k,
{
    if k == 0 {
        Ok(Seq::empty())
    } else {
        match segments_outcome(timeline, ticks_per_beat, ticks_per_measure, points, (k - 1) as nat) {
            Ok(lines) => match segment_outcome(
                timeline,
                ticks_per_beat,
                ticks_per_measure,
                points[k - 1],
                points[k as int],
            ) {
                Ok(line) => Ok(lines.push(line)),
                Err(failure) => Err(failure),
            },
            Err(failure) => Err(failure),
        }
    }
}

/// The number of segments of a slide through `points`.
pub open spec fn segment_count(points: Seq<SlidePoint>) -> nat {
    if points.len() < 2 {
        0
    } else {
        (points.len() - 1) as nat
    }
}

/// The AIR code of a direction: `07` up, `09` down.
pub open spec fn air_code(direction: Option<AirDirection>) -> Option<Seq<char>> {
    match direction {
        Some(AirDirection::Up) => Some("07"@),
        Some(AirDirection::Down) => Some("09"@),
        _ => None,
    }
}

/// The lines that standard SUS writes for a note at `position` on `lane`.
pub open spec fn standard_note_outcome(
    timeline: MeasureTimeline,
    ticks_per_beat: nat,
    ticks_per_measure: nat,
    position: Position,
    lane: Lane,
    note: StandardNote,
) -> Result<Seq<Seq<char>>, LineFailure> {
    match timeline.locate_spec(position, ticks_per_beat) {
        Err(_) => Err(LineFailure::Unrepresentable),
        Ok((measure, tick)) => match lane {
            Lane::Side(_) => Err(LineFailure::Unsupported("side lane in standard SUS"@)),
            Lane::Slider { start, width } => {
                let head = note_head(measure as nat, tick as nat);
                let lanes = lane_field(start, width);
                match note {
                    StandardNote::Tap(TapKind::Tap) => Ok(seq![head + "01"@ + lanes]),
                    StandardNote::Tap(TapKind::XTap) => Ok(seq![head + "02"@ + lanes]),
                    StandardNote::Tap(TapKind::Flick { .. }) => Ok(seq![head + "03"@ + lanes]),
                    StandardNote::Tap(kind) => match channel_line_outcome(
                        timeline,
                        position,
                        '1',
                        start,
                        tap_text(kind) as char,
                        width,
                        ticks_per_beat,
                    ) {
                        Ok(line) => Ok(seq![line]),
                        Err(failure) => Err(failure),
                    },
                    StandardNote::ExTap(direction) => match standard_ex_direction_spec(direction) {
                        Some(code) => match channel_line_outcome(
                            timeline,
                            position,
                            '5',
                            start,
                            code,
                            width,
                            ticks_per_beat,
                        ) {
                            Ok(line) => Ok(seq![line]),
                            Err(failure) => Err(failure),
                        },
                        None => Ok(seq![head + "02"@ + lanes]),
                    },
                    StandardNote::Mine => Ok(seq![head + "10"@ + lanes]),
                    StandardNote::Hold(end) => match standard_duration(position, end, ticks_per_measure) {
                        Some(duration) => Ok(seq![head + "05"@ + lanes + upper_hex(duration, 4)]),
                        None => Err(LineFailure::Unrepresentable),
                    },
                    StandardNote::Slide(points) => segments_outcome(
                        timeline,
                        ticks_per_beat,
                        ticks_per_measure,
                        points@,
                        segment_count(points@),
                    ),
                    StandardNote::Air(direction, parent) => match air_code(direction) {
                        None => Err(LineFailure::Unsupported("standard SUS AIR direction"@)),
                        Some(code) => match parent {
                            Some(kind) => Ok(seq![head + code + lanes + parent_letters(kind)]),
                            None => Err(LineFailure::InvalidParent),
                        },
                    },
                    StandardNote::AirHold(end, parent) => match standard_duration(position, end, ticks_per_measure) {
                        None => Err(LineFailure::Unrepresentable),
                        Some(duration) => match parent {
                            Some(kind) => Ok(
                                seq![head + "08"@ + lanes + upper_hex(duration, 4) + parent_letters(kind)],
                            ),
                            None => Err(LineFailure::InvalidParent),
                        },
                    },
                    StandardNote::AirPath => Err(LineFailure::Unsupported("standard SUS AIR slide or crush"@)),
                }
            },
        },
    }
}

/// Lane starts and widths that standard SUS can double in a byte.
pub open spec fn lane_doubles(lane: Lane) -> bool {
    match lane {
        Lane::Slider { start, width } => start < 128 && width < 128,
        Lane::Side(_) => true,
    }
}

/// A short note that standard SUS writes as a channel data line.
pub open spec fn written_on_channel(note: StandardNote) -> bool {
    match note {
        StandardNote::Tap(kind) => !(kind is Tap || kind is XTap || kind is Flick),
        StandardNote::ExTap(direction) => standard_ex_direction_spec(direction) is Some,
        _ => false,
    }
}

/// The lines as texts.
pub open spec fn line_texts(lines: Seq<String>) -> Seq<Seq<char>> {
    lines.map_values(|line: String| line@)
}

/// The upper-case form of a lower-case hexadecimal digit.
fn upper_char(c: char) -> (u: char)
    ensures
        u == upper(c),
{
    match c {
        'a' => 'A',
        'b' => 'B',
        'c' => 'C',
        'd' => 'D',
        'e' => 'E',
        'f' => 'F',
        _ => c,
    }
}

/// Appends `n` in upper-case hexadecimal with leading zeros up to `width` digits.
fn push_upper_hex(out: &mut String, n: u64, width: usize)
    ensures
        final(out)@ == old(out)@ + upper_hex(n as nat, width as nat),
{
    let mut digits = String::new();
    push_padded(&mut digits, n, 16, width);
    let chars = chars_of(digits.as_str());
    let ghost start = out@;
    let ghost lower = ascii_chars(padded_digits(n as nat, 16, width as nat));
    proof {
        assert(digits@ =~= lower);
    }
    let mut i: usize = 0;
    while i < chars.len()
        invariant
            chars@ == lower,
            i <= chars@.len(),
            out@ == start + uppercase(lower.take(i as int)),
        decreases chars@.len() - i,
    {
        let u = upper_char(chars[i]);
        out.push(u);
        i += 1;
        proof {
            assert(uppercase(lower.take(i as int)) =~= uppercase(lower.take(i - 1)).push(u));
        }
    }
    proof {
        assert(lower.take(i as int) =~= lower);
    }
}

/// The start of a note line at `measure` and `tick`.
fn push_note_head(out: &mut String, measure: u32, tick: u64)
    ensures
        final(out)@ == old(out)@ + note_head(measure as nat, tick as nat),
{
    let ghost start = out@;
    out.append("#");
    push_upper_hex(out, measure as u64, 2);
    push_upper_hex(out, tick, 3);
    out.append(": ");
    proof {
        assert(out@ =~= start + note_head(measure as nat, tick as nat));
    }
}

/// The lane start and width, doubled.
fn push_lane_field(out: &mut String, start: u8, width: u8)
    ensures
        final(out)@ == old(out)@ + lane_field(start, width),
{
    let ghost before = out@;
    push_upper_hex(out, start as u64 * 2, 2);
    push_upper_hex(out, width as u64 * 2, 2);
    proof {
        assert(out@ =~= before + lane_field(start, width));
    }
}

/// The text of one line.
fn one_line(line: String) -> (lines: Vec<String>)
    ensures
        line_texts(lines@) == seq![line@],
{
    let mut lines: Vec<String> = Vec::new();
    lines.push(line);
    proof {
        assert(line_texts(lines@) =~= seq![line@]);
    }
    lines
}

/// The line of one slide segment.
fn segment_line(
    timeline: &MeasureTimeline,
    ticks_per_beat: u64,
    ticks_per_measure: u64,
    start: SlidePoint,
    end: SlidePoint,
) -> (result: Result<String, SusError>)
    requires
        lane_doubles(start.lane_spec()),
        lane_doubles(end.lane_spec()),
    ensures
        match segment_outcome(*timeline, ticks_per_beat as nat, ticks_per_measure as nat, start, end) {
            Ok(line) => result matches Ok(s) && s@ == line,
            Err(LineFailure::Unrepresentable) => result matches Err(SusError::UnrepresentablePosition),
            Err(LineFailure::Unsupported(text)) => result matches Err(SusError::UnsupportedNote { note })
                && note@ == text,
            Err(LineFailure::InvalidParent) => false,
        },
{
    let (start_lane, start_width) = match start.lane() {
        Lane::Slider { start, width } => (start, width),
        Lane::Side(_) => {
            return Err(SusError::UnsupportedNote { note: String::from_str("side slide lane in standard SUS") });
        },
    };
    let (end_lane, end_width) = match end.lane() {
        Lane::Slider { start, width } => (start, width),
        Lane::Side(_) => {
            return Err(SusError::UnsupportedNote { note: String::from_str("side slide endpoint in standard SUS") });
        },
    };
    let (measure, tick) = output_position(timeline, start.position(), ticks_per_beat)?;
    let duration = duration_ticks(start.position(), end.position(), ticks_per_measure)?;
    let mut line = String::new();
    push_note_head(&mut line, measure, tick);
    line.append("06");
    push_lane_field(&mut line, start_lane, start_width);
    push_upper_hex(&mut line, duration, 4);
    push_lane_field(&mut line, end_lane, end_width);
    Ok(line)
}

/// Writes the lines of a note that standard SUS writes: one line for most
/// notes, one per segment for a slide, at the note's measure and tick
/// (`ticks_per_beat` ticks per beat, `ticks_per_measure` per four beats).
pub fn standard_note_lines(
    timeline: &MeasureTimeline,
    ticks_per_beat: u64,
    ticks_per_measure: u64,
    note_id: u32,
    position: Position,
    lane: Lane,
    note: &StandardNote,
) -> (result: Result<Vec<String>, SusError>)
    requires
        lane_doubles(lane),
        note matches StandardNote::Slide(points) ==> forall|i: int|
            0 <= i < points@.len() ==> lane_doubles(#[trigger] points@[i].lane_spec()),
        written_on_channel(*note) ==> (lane matches Lane::Slider { start, width } ==> start < 36 && width < 36),
    ensures
        match standard_note_outcome(
            *timeline,
            ticks_per_beat as nat,
            ticks_per_measure as nat,
            position,
            lane,
            *note,
        ) {
            Ok(lines) => (result matches Ok(written) && line_texts(written@) == lines),
            Err(failure) => fails_as(result, failure, note_id),
        },
{
    let (measure, tick) = output_position(timeline, position, ticks_per_beat)?;
    let (start, width) = match lane {
        Lane::Slider { start, width } => (start, width),
        Lane::Side(_) => {
            return Err(SusError::UnsupportedNote { note: String::from_str("side lane in standard SUS") });
        },
    };
    let mut line = String::new();
    push_note_head(&mut line, measure, tick);
    let ghost head = line@;
    let ghost lanes = lane_field(start, width);
    match note {
        StandardNote::Tap(kind) => {
            match kind {
                TapKind::Tap | TapKind::XTap | TapKind::Flick { .. } => {
                    let code = match kind {
                        TapKind::Tap => "01",
                        TapKind::XTap => "02",
                        _ => "03",
                    };
                    line.append(code);
                    push_lane_field(&mut line, start, width);
                    proof {
                        reveal_strlit("01");
                        reveal_strlit("02");
                        reveal_strlit("03");
                    }
                    Ok(one_line(line))
                },
                _ => {
                    let channel_line = standard_channel_line(
                        position,
                        '1',
                        start,
                        tap_byte(*kind) as char,
                        width,
                        ticks_per_beat,
                        timeline,
                    )?;
                    Ok(one_line(channel_line))
                },
            }
        },
        StandardNote::ExTap(direction) => match standard_ex_direction(*direction) {
            Ok(code) => {
                let channel_line = standard_channel_line(position, '5', start, code, width, ticks_per_beat, timeline)?;
                Ok(one_line(channel_line))
            },
            Err(_) => {
                line.append("02");
                push_lane_field(&mut line, start, width);
                Ok(one_line(line))
            },
        },
        StandardNote::Mine => {
            line.append("10");
            push_lane_field(&mut line, start, width);
            Ok(one_line(line))
        },
        StandardNote::Hold(end) => {
            let duration = duration_ticks(position, *end, ticks_per_measure)?;
            line.append("05");
            push_lane_field(&mut line, start, width);
            push_upper_hex(&mut line, duration, 4);
            Ok(one_line(line))
        },
        StandardNote::Slide(points) => {
            let mut lines: Vec<String> = Vec::new();
            let mut k: usize = 1;
            proof {
                assert(line_texts(lines@) =~= Seq::<Seq<char>>::empty());
            }
            while k < points.len()
                invariant
                    1 <= k,
                    k <= points@.len() || k == 1,
                    *note == StandardNote::Slide(*points),
                    timeline.locate_spec(position, ticks_per_beat as nat) is Ok,
                    lane is Slider,
                    forall|i: int| 0 <= i < points@.len() ==> lane_doubles(#[trigger] points@[i].lane_spec()),
                    segments_outcome(
                        *timeline,
                        ticks_per_beat as nat,
                        ticks_per_measure as nat,
                        points@,
                        (k - 1) as nat,
                    ) == Ok::<Seq<Seq<char>>, LineFailure>(line_texts(lines@)),
                decreases points@.len() - k,
            {
                let segment = segment_line(timeline, ticks_per_beat, ticks_per_measure, points[k - 1], points[k]);
                match segment {
                    Ok(text) => {
                        let ghost before = line_texts(lines@);
                        lines.push(text);
                        proof {
                            assert(line_texts(lines@) =~= before.push(text@));
                        }
                    },
                    Err(error) => {
                        proof {
                            let failed = segment_outcome(
                                *timeline,
                                ticks_per_beat as nat,
                                ticks_per_measure as nat,
                                points@[k - 1],
                                points@[k as int],
                            );
                            assert(failed is Err);
                            assert(segment_count(points@) == points@.len() - 1);
                            lemma_segments_fail(
                                *timeline,
                                ticks_per_beat as nat,
                                ticks_per_measure as nat,
                                points@,
                                k as nat,
                                segment_count(points@),
                            );
                        }
                        let result: Result<Vec<String>, SusError> = Err(error);
                        proof {
                            let failed = segment_outcome(
                                *timeline,
                                ticks_per_beat as nat,
                                ticks_per_measure as nat,
                                points@[k - 1],
                                points@[k as int],
                            )->Err_0;
                            assert(fails_as(result, failed, note_id));
                            assert(*note == StandardNote::Slide(*points));
                            assert(standard_note_outcome(
                                *timeline,
                                ticks_per_beat as nat,
                                ticks_per_measure as nat,
                                position,
                                lane,
                                *note,
                            ) == segments_outcome(
                                *timeline,
                                ticks_per_beat as nat,
                                ticks_per_measure as nat,
                                points@,
                                segment_count(points@),
                            ));
                        }
                        return result;
                    },
                }
                k += 1;
            }
            proof {
                if points@.len() >= 2 {
                    assert(k == points@.len());
                } else {
                    assert(k == 1);
                }
            }
            Ok(lines)
        },
        StandardNote::Air(direction, parent) => {
            let code = match direction {
                Some(AirDirection::Up) => "07",
                Some(AirDirection::Down) => "09",
                _ => {
                    return Err(SusError::UnsupportedNote { note: String::from_str("standard SUS AIR direction") });
                },
            };
            proof {
                reveal_strlit("07");
                reveal_strlit("09");
            }
            match parent {
                Some(kind) => {
                    line.append(code);
                    push_lane_field(&mut line, start, width);
                    line.append(kind.code());
                    Ok(one_line(line))
                },
                None => Err(invalid_parent(note_id)),
            }
        },
        StandardNote::AirHold(end, parent) => {
            let duration = duration_ticks(position, *end, ticks_per_measure)?;
            match parent {
                Some(kind) => {
                    line.append("08");
                    push_lane_field(&mut line, start, width);
                    push_upper_hex(&mut line, duration, 4);
                    line.append(kind.code());
                    Ok(one_line(line))
                },
                None => Err(invalid_parent(note_id)),
            }
        },
        StandardNote::AirPath => Err(
            SusError::UnsupportedNote { note: String::from_str("standard SUS AIR slide or crush") },
        ),
    }
}

/// The error for an AIR note whose parent is not in the chart.
fn invalid_parent(note_id: u32) -> (error: SusError)
    ensures
        error matches SusError::InvalidValue { line, value } && line == 0 && value@ == "invalid AIR parent for note "@
            + ascii_chars(digits_of(note_id as nat, 10)),
{
    let mut value = String::from_str("invalid AIR parent for note ");
    value.append(decimal(note_id as u64).as_str());
    SusError::InvalidValue { line: 0, value }
}

/// Once a segment cannot be written, neither can the slide.
proof fn lemma_segments_fail(
    timeline: MeasureTimeline,
    ticks_per_beat: nat,
    ticks_per_measure: nat,
    points: Seq<SlidePoint>,
    k: nat,
    n: nat,
)
    requires
        1 <= k <= n,
        segments_outcome(timeline, ticks_per_beat, ticks_per_measure, points, (k - 1) as nat) is Ok,
        segment_outcome(timeline, ticks_per_beat, ticks_per_measure, points[k - 1], points[k as int]) is Err,
    ensures
        segments_outcome(timeline, ticks_per_beat, ticks_per_measure, points, n) == Err::<Seq<Seq<char>>, LineFailure>(
            segment_outcome(timeline, ticks_per_beat, ticks_per_measure, points[k - 1], points[k as int])->Err_0,
        ),
    decreases n - k,
{
    if n > k {
        lemma_segments_fail(timeline, ticks_per_beat, ticks_per_measure, points, k, (n - 1) as nat);
    }
}

} // verus!
