//! How the lines of a C2S document are read: record tags, fields, positions
//! and the earlier notes that AIR records attach to.

use vstd::prelude::*;
use vstd::string::{StringExecFns, StringSliceAdditionalSpecFns};
use vstd::utf8::encode_utf8;

use crate::c2s::{invalid_value, parse_u32, parse_u64, parse_u8, C2sError};
use crate::chart::NoteId;
use crate::error::ChartError;
use crate::note::{valid_slider, AirCrushInterval, Lane, SlidePointKind};
use crate::position::Position;
use crate::text::{ascii_chars, chars_of, decimal, digits_of, parse_unsigned_spec, text_is, texts};
use crate::timeline::MeasureTimeline;

verus! {

/// The C2S records that carry chart information; other tags are ignored.
#[derive(Clone, Copy, Debug, PartialEq, Eq, Structural)]
pub enum C2sRecord {
    Resolution,
    Tempo,
    Meter,
    Tap,
    Flick,
    Mine,
    ExTap,
    Air,
    Hold,
    ExHold,
    Slide,
    ExSlide,
    AirHold,
    AirSlide,
    SpeedAssignment,
    ScrollSpeed,
    AirCrush,
}

/// The record a tag introduces.
pub open spec fn record_kind_spec(tag: Seq<char>) -> Option<C2sRecord> {
    if tag == "RESOLUTION"@ {
        Some(C2sRecord::Resolution)
    } else if tag == "BPM"@ {
        Some(C2sRecord::Tempo)
    } else if tag == "MET"@ {
        Some(C2sRecord::Meter)
    } else if tag == "TAP"@ {
        Some(C2sRecord::Tap)
    } else if tag == "FLK"@ {
        Some(C2sRecord::Flick)
    } else if tag == "MNE"@ {
        Some(C2sRecord::Mine)
    } else if tag == "CHR"@ {
        Some(C2sRecord::ExTap)
    } else if tag == "AIR"@ {
        Some(C2sRecord::Air)
    } else if tag == "HLD"@ {
        Some(C2sRecord::Hold)
    } else if tag == "HXD"@ {
        Some(C2sRecord::ExHold)
    } else if tag == "SLD"@ || tag == "SLC"@ {
        Some(C2sRecord::Slide)
    } else if tag == "SXD"@ || tag == "SXC"@ {
        Some(C2sRecord::ExSlide)
    } else if tag == "AHD"@ || tag == "AHX"@ {
        Some(C2sRecord::AirHold)
    } else if tag == "ASC"@ || tag == "ASD"@ {
        Some(C2sRecord::AirSlide)
    } else if tag == "SLA"@ {
        Some(C2sRecord::SpeedAssignment)
    } else if tag == "SFL"@ || tag == "SLP"@ {
        Some(C2sRecord::ScrollSpeed)
    } else if tag == "ALD"@ {
        Some(C2sRecord::AirCrush)
    } else {
        None
    }
}

/// The record a tag introduces, or `None` for a tag that is ignored.
pub fn record_kind(tag: &str) -> (kind: Option<C2sRecord>)
    ensures
        kind == record_kind_spec(tag@),
{
    if text_is(tag, "RESOLUTION") {
        Some(C2sRecord::Resolution)
    } else if text_is(tag, "BPM") {
        Some(C2sRecord::Tempo)
    } else if text_is(tag, "MET") {
        Some(C2sRecord::Meter)
    } else if text_is(tag, "TAP") {
        Some(C2sRecord::Tap)
    } else if text_is(tag, "FLK") {
        Some(C2sRecord::Flick)
    } else if text_is(tag, "MNE") {
        Some(C2sRecord::Mine)
    } else if text_is(tag, "CHR") {
        Some(C2sRecord::ExTap)
    } else if text_is(tag, "AIR") {
        Some(C2sRecord::Air)
    } else if text_is(tag, "HLD") {
        Some(C2sRecord::Hold)
    } else if text_is(tag, "HXD") {
        Some(C2sRecord::ExHold)
    } else if text_is(tag, "SLD") || text_is(tag, "SLC") {
        Some(C2sRecord::Slide)
    } else if text_is(tag, "SXD") || text_is(tag, "SXC") {
        Some(C2sRecord::ExSlide)
    } else if text_is(tag, "AHD") || text_is(tag, "AHX") {
        Some(C2sRecord::AirHold)
    } else if text_is(tag, "ASC") || text_is(tag, "ASD") {
        Some(C2sRecord::AirSlide)
    } else if text_is(tag, "SLA") {
        Some(C2sRecord::SpeedAssignment)
    } else if text_is(tag, "SFL") || text_is(tag, "SLP") {
        Some(C2sRecord::ScrollSpeed)
    } else if text_is(tag, "ALD") {
        Some(C2sRecord::AirCrush)
    } else {
        None
    }
}

/// The decimal value of a field, if it is a numeral of at most `max`.
pub open spec fn field_number(text: Seq<char>, max: nat) -> Option<nat> {
    parse_unsigned_spec(encode_utf8(text), 10, max)
}

/// The outcome is the invalid-value error for `text` on `line`.
pub open spec fn rejects_value<T>(result: Result<T, C2sError>, line: usize, text: Seq<char>) -> bool {
    match result {
        Err(C2sError::InvalidValue { line: l, value: v }) => l == line && v@ == text,
        _ => false,
    }
}

/// The outcome is the error for a decimal field that could not be read.
pub open spec fn rejects_field<T>(result: Result<T, C2sError>, line: usize, fields: Seq<Seq<char>>, index: int) -> bool {
    match result {
        Err(e) => number_field_error(e, line, fields, index),
        Ok(_) => false,
    }
}

/// The field at `index`, or the malformed-record error when the line has no
/// such field.
pub fn field(line: usize, fields: &[String], index: usize) -> (result: Result<&str, C2sError>)
    ensures
        index < fields@.len() ==> (result matches Ok(f) && f@ == fields@[index as int]@),
        index >= fields@.len() ==> result == Err::<&str, C2sError>(C2sError::MalformedRecord { line }),
{
    if index < fields.len() {
        Ok(fields[index].as_str())
    } else {
        Err(C2sError::MalformedRecord { line })
    }
}

/// Reads the decimal field at `index`, of at most `max`.
pub open spec fn number_field_ok(fields: Seq<Seq<char>>, index: int, max: nat) -> bool {
    index < fields.len() && field_number(fields[index], max) is Some
}

/// The outcome of reading a decimal field when it fails: a missing field is
/// a malformed record, a field that is no numeral in range an invalid value.
pub open spec fn number_field_error(error: C2sError, line: usize, fields: Seq<Seq<char>>, index: int) -> bool {
    if index >= fields.len() {
        error == C2sError::MalformedRecord { line }
    } else {
        error matches C2sError::InvalidValue { line: l, value: v } && l == line && v@ == fields[index]
    }
}

/// Reads the unsigned 64-bit field at `index`.
pub fn u64_field(line: usize, fields: &[String], index: usize) -> (result: Result<u64, C2sError>)
    ensures
        number_field_ok(texts(fields@), index as int, u64::MAX as nat) ==> result == Ok::<u64, C2sError>(
            field_number(fields@[index as int]@, u64::MAX as nat)->0 as u64,
        ),
        !number_field_ok(texts(fields@), index as int, u64::MAX as nat) ==> rejects_field(
            result,
            line,
            texts(fields@),
            index as int,
        ),
{
    let value = field(line, fields, index)?;
    parse_u64(line, value)
}

/// Reads the unsigned 32-bit field at `index`.
pub fn u32_field(line: usize, fields: &[String], index: usize) -> (result: Result<u32, C2sError>)
    ensures
        number_field_ok(texts(fields@), index as int, u32::MAX as nat) ==> result == Ok::<u32, C2sError>(
            field_number(fields@[index as int]@, u32::MAX as nat)->0 as u32,
        ),
        !number_field_ok(texts(fields@), index as int, u32::MAX as nat) ==> rejects_field(
            result,
            line,
            texts(fields@),
            index as int,
        ),
{
    let value = field(line, fields, index)?;
    parse_u32(line, value)
}

/// The measure and tick in the second and third fields of a timed record.
pub fn location(line: usize, fields: &[String]) -> (result: Result<(u32, u64), C2sError>)
    ensures
        number_field_ok(texts(fields@), 1, u32::MAX as nat) && number_field_ok(texts(fields@), 2, u64::MAX as nat)
            ==> result == Ok::<(u32, u64), C2sError>(
            (
                field_number(fields@[1]@, u32::MAX as nat)->0 as u32,
                field_number(fields@[2]@, u64::MAX as nat)->0 as u64,
            ),
        ),
        !number_field_ok(texts(fields@), 1, u32::MAX as nat) ==> rejects_field(result, line, texts(fields@), 1),
        number_field_ok(texts(fields@), 1, u32::MAX as nat) && !number_field_ok(texts(fields@), 2, u64::MAX as nat)
            ==> rejects_field(result, line, texts(fields@), 2),
{
    let measure = u32_field(line, fields, 1)?;
    let tick = u64_field(line, fields, 2)?;
    Ok((measure, tick))
}

/// The slider lane whose start and width are the given decimal fields.
pub open spec fn lane_outcome_ok(start: Seq<char>, width: Seq<char>) -> bool {
    field_number(start, u8::MAX as nat) is Some && field_number(width, u8::MAX as nat) is Some
}

/// Reads a slider lane from its start and width fields.
pub fn lane(line: usize, start: &str, width: &str) -> (result: Result<Lane, C2sError>)
    ensures
        field_number(start@, u8::MAX as nat) is None ==> rejects_value(result, line, start@),
        field_number(start@, u8::MAX as nat) is Some && field_number(width@, u8::MAX as nat) is None ==> rejects_value(result, line, width@),
        lane_outcome_ok(start@, width@) ==> ({
            let s = field_number(start@, u8::MAX as nat)->0 as u8;
            let w = field_number(width@, u8::MAX as nat)->0 as u8;
            &&& w == 0 ==> result == Err::<Lane, C2sError>(
                C2sError::Chart { line, source: ChartError::InvalidSliderLaneWidth },
            )
            &&& w != 0 && !valid_slider(s, w) ==> result == Err::<Lane, C2sError>(
                C2sError::Chart { line, source: ChartError::InvalidSliderLane },
            )
            &&& valid_slider(s, w) ==> result == Ok::<Lane, C2sError>(Lane::Slider { start: s, width: w })
        }),
{
    let start = parse_u8(line, start)?;
    let width = parse_u8(line, width)?;
    match Lane::slider(start, width) {
        Ok(lane) => Ok(lane),
        Err(source) => Err(C2sError::Chart { line, source }),
    }
}

/// The resolution a `RESOLUTION` record sets: ticks per measure, never zero.
pub fn resolution(line: usize, fields: &[String]) -> (result: Result<u64, C2sError>)
    ensures
        !number_field_ok(texts(fields@), 1, u64::MAX as nat) ==> rejects_field(result, line, texts(fields@), 1),
        number_field_ok(texts(fields@), 1, u64::MAX as nat) ==> ({
            let r = field_number(fields@[1]@, u64::MAX as nat)->0;
            &&& r == 0 ==> rejects_value(result, line, fields@[1]@)
            &&& r != 0 ==> result == Ok::<u64, C2sError>(r as u64)
        }),
{
    let value = field(line, fields, 1)?;
    let resolution = parse_u64(line, value)?;
    if resolution == 0 {
        return Err(invalid_value(line, value));
    }
    Ok(resolution)
}

/// The text of a meter that names a zero: numerator, slash, denominator.
pub open spec fn meter_text(numerator: nat, denominator: nat) -> Seq<char> {
    ascii_chars(digits_of(numerator, 10)) + "/"@ + ascii_chars(digits_of(denominator, 10))
}

/// The field at `index` of a `MET` record is a numeral in range: the
/// measure is 32-bit, the tick and the meter 64-bit.
pub open spec fn meter_field_ok(fields: Seq<Seq<char>>, index: int) -> bool {
    number_field_ok(fields, index, if index == 1 { u32::MAX as nat } else { u64::MAX as nat })
}

/// Checks a `MET` record: measure, tick, and a meter with no zero. The meter
/// only changes how the chart is displayed, so nothing else is read from it.
pub fn check_meter(line: usize, fields: &[String]) -> (result: Result<(), C2sError>)
    ensures
        !meter_field_ok(texts(fields@), 1) ==> rejects_field(result, line, texts(fields@), 1),
        meter_field_ok(texts(fields@), 1) && !meter_field_ok(texts(fields@), 2) ==> rejects_field(
            result,
            line,
            texts(fields@),
            2,
        ),
        meter_field_ok(texts(fields@), 1) && meter_field_ok(texts(fields@), 2) && !meter_field_ok(texts(fields@), 3)
            ==> rejects_field(result, line, texts(fields@), 3),
        meter_field_ok(texts(fields@), 1) && meter_field_ok(texts(fields@), 2) && meter_field_ok(texts(fields@), 3)
            && !meter_field_ok(texts(fields@), 4) ==> rejects_field(result, line, texts(fields@), 4),
        meter_field_ok(texts(fields@), 1) && meter_field_ok(texts(fields@), 2) && meter_field_ok(texts(fields@), 3)
            && meter_field_ok(texts(fields@), 4) ==> ({
            let n = field_number(fields@[3]@, u64::MAX as nat)->0;
            let d = field_number(fields@[4]@, u64::MAX as nat)->0;
            &&& (n == 0 || d == 0) ==> rejects_value(result, line, meter_text(n, d))
            &&& (n != 0 && d != 0) ==> result == Ok::<(), C2sError>(())
        }),
{
    let _measure = u32_field(line, fields, 1)?;
    let _tick = u64_field(line, fields, 2)?;
    let numerator = u64_field(line, fields, 3)?;
    let denominator = u64_field(line, fields, 4)?;
    if numerator == 0 || denominator == 0 {
        let mut value = decimal(numerator);
        value.append("/");
        value.append(decimal(denominator).as_str());
        return Err(C2sError::InvalidValue { line, value });
    }
    Ok(())
}

/// Where a record at `tick` ticks after the start of `measure` lies: ticks
/// past the end of the measure carry into later measures, each of
/// `resolution` ticks.
pub open spec fn record_position_ok(
    timeline: MeasureTimeline,
    resolution: nat,
    measure: nat,
    tick: nat,
) -> Option<Result<Position, ChartError>> {
    if measure + tick / resolution > u32::MAX {
        None
    } else {
        Some(timeline.position_spec(measure + tick / resolution, tick % resolution, resolution))
    }
}

/// The absolute position of a record's measure and tick.
pub fn record_position(
    timeline: &MeasureTimeline,
    resolution: Option<u64>,
    line: usize,
    measure: u32,
    tick: u64,
) -> (result: Result<Position, C2sError>)
    requires
        resolution != Some(0u64),
    ensures
        resolution is None ==> result == Err::<Position, C2sError>(C2sError::MissingResolution),
        resolution matches Some(r) ==> match record_position_ok(*timeline, r as nat, measure as nat, tick as nat) {
            None => rejects_value(result, line, ascii_chars(digits_of(tick as nat, 10))),
            Some(Ok(p)) => result == Ok::<Position, C2sError>(p),
            Some(Err(source)) => result == Err::<Position, C2sError>(C2sError::Chart { line, source }),
        },
{
    let resolution = match resolution {
        Some(r) => r,
        None => return Err(C2sError::MissingResolution),
    };
    let offset = tick / resolution;
    if offset > u32::MAX as u64 || measure as u64 + offset > u32::MAX as u64 {
        return Err(C2sError::InvalidValue { line, value: decimal(tick) });
    }
    let measure = measure + offset as u32;
    match timeline.position(measure, tick % resolution, resolution) {
        Ok(p) => Ok(p),
        Err(source) => Err(C2sError::Chart { line, source }),
    }
}

/// A position that C2S writes is read back: the measure and tick the writer
/// gives a position, read at the resolution of 384 ticks per measure that it
/// declares on the four-beat measures that a C2S document has, are that
/// position again.
pub proof fn lemma_c2s_location_reads_back(timeline: MeasureTimeline, position: Position)
    requires
        timeline.changes() == Seq::<(u32, Position)>::empty(),
        timeline.default_length_spec() == Position::from_fraction(4, 1),
        position.wf(),
        crate::c2s::c2s_location(position) is Some,
    ensures
        match crate::c2s::c2s_location(position) {
            Some((measure, tick)) => record_position_ok(timeline, 384, measure, tick) == Some(
                Ok::<Position, ChartError>(position),
            ),
            None => false,
        },
{
    let (m, t) = crate::c2s::c2s_location(position)->0;
    let total = crate::c2s::c2s_ticks(position)->0;
    let (pn, pd) = (position.num(), position.den());
    crate::position::lemma_valid_denominator(position);
    crate::position::lemma_terms_fit(position);
    let scaled = pn * 96;
    vstd::arithmetic::div_mod::lemma_fundamental_div_mod(scaled as int, pd as int);
    assert(pn * 96 == total * pd) by (nonlinear_arith)
        requires
            scaled == pd * (scaled / pd) + scaled % pd,
            scaled % pd == 0,
            total == scaled / pd,
            scaled == pn * 96,
    ;
    assert(total == 384 * m + t && t < 384 && m <= u32::MAX);
    assert(t / 384 == 0 && t % 384 == t);
    timeline.lemma_four_beat_starts(m);
    let start = Position::from_fraction(4 * m, 1);
    crate::position::lemma_whole_beats(4 * m);
    crate::position::lemma_whole_beats(4);
    let length = Position::from_fraction(4, 1);
    assert(timeline.length_at_spec(m) == length) by {
        assert(crate::timeline::last_change_at_or_before(timeline.changes(), m) is None);
    }
    let offset = Position::from_fraction(t, 384);
    crate::position::lemma_from_fraction(t, 384);
    crate::position::lemma_reduced_form_value(offset, t, 384);
    crate::position::lemma_reduced_terms_bounded(t, 384);
    let (on, od) = (offset.num(), offset.den());
    assert(on < od) by (nonlinear_arith)
        requires
            on * 384 == t * od,
            t < 384,
            od > 0,
    ;
    let part = Position::from_fraction(4 * on, od);
    assert(crate::position::scale_terms(length, on, od) == Some((4 * on, od)));
    crate::position::lemma_from_fraction(4 * on, od);
    crate::position::lemma_reduced_form_value(part, 4 * on, od);
    crate::position::lemma_reduced_terms_bounded(4 * on, od);
    let (qn, qd) = (part.num(), part.den());
    assert(4 * m * qd <= 4 * 0xffff_ffff * 384) by (nonlinear_arith)
        requires
            m <= 0xffff_ffff,
            qd <= 384,
    ;
    let sum_n = 4 * m * qd + qn;
    assert(crate::position::add_terms(start, part) == Some((sum_n, qd)));
    let result = Position::from_fraction(sum_n, qd);
    assert(timeline.position_spec(m, t, 384) == Ok::<Position, ChartError>(result));
    crate::position::lemma_from_fraction(sum_n, qd);
    crate::position::lemma_reduced_form_value(result, sum_n, qd);
    let (rn, rd) = (result.num(), result.den());
    assert(qn * 96 == t * qd) by (nonlinear_arith)
        requires
            qn * od == 4 * on * qd,
            on * 384 == t * od,
            od > 0,
    ;
    assert(rn * 96 == total * rd) by (nonlinear_arith)
        requires
            rn * qd == sum_n * rd,
            sum_n == 4 * m * qd + qn,
            qn * 96 == t * qd,
            total == 384 * m + t,
            qd > 0,
    ;
    assert(rn * pd == pn * rd) by (nonlinear_arith)
        requires
            rn * 96 == total * rd,
            pn * 96 == total * pd,
    ;
    crate::position::lemma_same_value_same_position(result, position);
}

/// The tick at which a record of `duration` ticks from `tick` ends.
pub fn end_tick(line: usize, tick: u64, duration: u64) -> (result: Result<u64, C2sError>)
    ensures
        tick + duration <= u64::MAX ==> result == Ok::<u64, C2sError>((tick + duration) as u64),
        tick + duration > u64::MAX ==> rejects_value(result, line, ascii_chars(digits_of(duration as nat, 10))),
{
    match tick.checked_add(duration) {
        Some(end) => Ok(end),
        None => Err(C2sError::InvalidValue { line, value: decimal(duration) }),
    }
}

/// How an `ALD` interval in 96ths of a beat creates combo points: zero is a
/// trace, less than a hundred beats repeats, anything longer only counts the
/// start.
pub open spec fn air_crush_interval_spec(interval: nat) -> AirCrushInterval {
    if interval == 0 {
        AirCrushInterval::Trace
    } else if interval < 9600 {
        AirCrushInterval::Every(Position::from_fraction(interval, 96))
    } else {
        AirCrushInterval::Start
    }
}

/// Reads the combo interval of an `ALD` record.
pub fn air_crush_interval(interval: u64) -> (result: AirCrushInterval)
    ensures
        result == air_crush_interval_spec(interval as nat),
{
    if interval == 0 {
        AirCrushInterval::Trace
    } else if interval < 9600 {
        let every = Position::new(interval, 96);
        match every {
            Ok(p) => AirCrushInterval::Every(p),
            Err(_) => AirCrushInterval::Start,
        }
    } else {
        AirCrushInterval::Start
    }
}

/// The length of a scroll-speed change: `duration` ticks at `resolution`
/// ticks per measure of four beats.
pub fn scroll_duration(line: usize, duration: u64, resolution: Option<u64>) -> (result: Result<Position, C2sError>)
    requires
        resolution != Some(0u64),
    ensures
        resolution is None ==> result == Err::<Position, C2sError>(C2sError::MissingResolution),
        resolution is Some && duration * 4 > u64::MAX ==> rejects_value(result, line, ascii_chars(digits_of(duration as nat, 10))),
        resolution is Some && duration * 4 <= u64::MAX ==> result == Ok::<Position, C2sError>(
            Position::from_fraction((duration * 4) as nat, resolution->0 as nat),
        ),
{
    let resolution = match resolution {
        Some(r) => r,
        None => return Err(C2sError::MissingResolution),
    };
    let scaled = match duration.checked_mul(4) {
        Some(v) => v,
        None => return Err(C2sError::InvalidValue { line, value: decimal(duration) }),
    };
    match Position::new(scaled, resolution) {
        Ok(p) => Ok(p),
        Err(source) => Err(C2sError::Chart { line, source }),
    }
}

/// The end point of a slide record: a control point for the `SLC` and `SXC`
/// tags, which end in `C`, a visible one otherwise.
pub fn slide_end_kind(tag: &str) -> (kind: SlidePointKind)
    ensures
        tag@.len() > 0 && tag@.last() == 'C' ==> kind == SlidePointKind::Control,
        !(tag@.len() > 0 && tag@.last() == 'C') ==> kind == SlidePointKind::Visible,
{
    let chars = chars_of(tag);
    if chars.len() > 0 && chars[chars.len() - 1] == 'C' {
        SlidePointKind::Control
    } else {
        SlidePointKind::Visible
    }
}

/// The notes an AIR record can name as its parent.
#[derive(Clone, Copy, Debug, PartialEq, Eq, Structural)]
pub enum ParentRecord {
    Tap,
    ExTap,
    Flick,
    Mine,
    Hold,
    Slide,
}

/// The parent a tag names in the parent field of an AIR long note.
pub open spec fn parent_tag(tag: Seq<char>) -> Option<ParentRecord> {
    if tag == "TAP"@ {
        Some(ParentRecord::Tap)
    } else if tag == "CHR"@ {
        Some(ParentRecord::ExTap)
    } else if tag == "FLK"@ {
        Some(ParentRecord::Flick)
    } else if tag == "MNE"@ {
        Some(ParentRecord::Mine)
    } else if tag == "HLD"@ {
        Some(ParentRecord::Hold)
    } else if tag == "SLD"@ {
        Some(ParentRecord::Slide)
    } else {
        None
    }
}

/// The parent a tag names in an `AIR` record, which cannot stand on a mine.
pub open spec fn air_parent_tag(tag: Seq<char>) -> Option<ParentRecord> {
    if tag == "MNE"@ {
        None
    } else {
        parent_tag(tag)
    }
}

fn parent_of(tag: &str) -> (parent: Option<ParentRecord>)
    ensures
        parent == parent_tag(tag@),
{
    if text_is(tag, "TAP") {
        Some(ParentRecord::Tap)
    } else if text_is(tag, "CHR") {
        Some(ParentRecord::ExTap)
    } else if text_is(tag, "FLK") {
        Some(ParentRecord::Flick)
    } else if text_is(tag, "MNE") {
        Some(ParentRecord::Mine)
    } else if text_is(tag, "HLD") {
        Some(ParentRecord::Hold)
    } else if text_is(tag, "SLD") {
        Some(ParentRecord::Slide)
    } else {
        None
    }
}

/// The most recent note of each kind that an AIR record can attach to.
#[derive(Clone, Copy, Debug, PartialEq, Eq, Structural)]
pub struct ParentSlots {
    pub tap: Option<NoteId>,
    pub ex_tap: Option<NoteId>,
    pub flick: Option<NoteId>,
    pub mine: Option<NoteId>,
    pub hold: Option<NoteId>,
    pub slide: Option<NoteId>,
}

impl ParentSlots {
    /// The most recent note of a kind.
    pub open spec fn slot(self, kind: ParentRecord) -> Option<NoteId> {
        match kind {
            ParentRecord::Tap => self.tap,
            ParentRecord::ExTap => self.ex_tap,
            ParentRecord::Flick => self.flick,
            ParentRecord::Mine => self.mine,
            ParentRecord::Hold => self.hold,
            ParentRecord::Slide => self.slide,
        }
    }

    /// No note read yet.
    pub fn new() -> (slots: Self)
        ensures
            forall|kind: ParentRecord| slots.slot(kind) is None,
    {
        ParentSlots { tap: None, ex_tap: None, flick: None, mine: None, hold: None, slide: None }
    }

    /// Records `id` as the most recent note of `kind`.
    pub fn remember(&mut self, kind: ParentRecord, id: NoteId)
        ensures
            forall|k: ParentRecord| #[trigger] final(self).slot(k) == if k == kind {
                Some(id)
            } else {
                old(self).slot(k)
            },
    {
        match kind {
            ParentRecord::Tap => self.tap = Some(id),
            ParentRecord::ExTap => self.ex_tap = Some(id),
            ParentRecord::Flick => self.flick = Some(id),
            ParentRecord::Mine => self.mine = Some(id),
            ParentRecord::Hold => self.hold = Some(id),
            ParentRecord::Slide => self.slide = Some(id),
        }
    }

    /// The parent of an `AIR` record whose parent field is `tag`.
    pub fn air_parent(&self, line: usize, tag: &str) -> (result: Result<NoteId, C2sError>)
        ensures
            match air_parent_tag(tag@) {
                Some(kind) if self.slot(kind) is Some => result == Ok::<NoteId, C2sError>(self.slot(kind)->0),
                _ => rejects_value(result, line, "AIR without "@ + tag@ + " parent"@),
            },
    {
        let kind = if text_is(tag, "MNE") {
            None
        } else {
            parent_of(tag)
        };
        let found = match kind {
            Some(k) => self.get(k),
            None => None,
        };
        match found {
            Some(id) => Ok(id),
            None => {
                let mut value = String::from_str("AIR without ");
                value.append(tag);
                value.append(" parent");
                Err(C2sError::InvalidValue { line, value })
            },
        }
    }

    /// The parent of an AIR long note whose parent field is `tag`.
    pub fn long_air_parent(&self, line: usize, tag: Option<&str>) -> (result: Result<NoteId, C2sError>)
        ensures
            tag is None ==> result == Err::<NoteId, C2sError>(C2sError::MalformedRecord { line }),
            tag is Some && parent_tag(tag->0@) is None ==> rejects_value(result, line, tag->0@),
            tag is Some && parent_tag(tag->0@) is Some ==> match self.slot(parent_tag(tag->0@)->0) {
                Some(id) => result == Ok::<NoteId, C2sError>(id),
                None => rejects_value(result, line, "AIR long note without a parent"@),
            },
    {
        let tag = match tag {
            Some(t) => t,
            None => return Err(C2sError::MalformedRecord { line }),
        };
        let kind = match parent_of(tag) {
            Some(k) => k,
            None => return Err(invalid_value(line, tag)),
        };
        match self.get(kind) {
            Some(id) => Ok(id),
            None => Err(invalid_value(line, "AIR long note without a parent")),
        }
    }

    fn get(&self, kind: ParentRecord) -> (id: Option<NoteId>)
        ensures
            id == self.slot(kind),
    {
        match kind {
            ParentRecord::Tap => self.tap,
            ParentRecord::ExTap => self.ex_tap,
            ParentRecord::Flick => self.flick,
            ParentRecord::Mine => self.mine,
            ParentRecord::Hold => self.hold,
            ParentRecord::Slide => self.slide,
        }
    }
}

} // verus!
