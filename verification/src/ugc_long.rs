//! Reading the follower lines of UGC long notes, and what a hold or slide
//! is once its followers are read.

use vstd::prelude::*;
use vstd::string::{StringExecFns, StringSliceAdditionalSpecFns};
use vstd::utf8::{decode_utf8, encode_utf8, is_char_boundary};

use crate::chart::ChartMode;
use crate::error::ChartError;
use crate::note::{valid_slider, AirCrushColor, AirCrushInterval, Lane, SideButton, SlidePoint, SlidePointKind};
use crate::position::{sum, Position};
use crate::text::digit_value;
use crate::ugc::{
    air_crush_color_code, air_height_code, air_height_raw, decimal_value, follower_spec, parse_air_crush_color, parse_follower,
    parse_lane, parse_u64, unsupported_record, UgcError,
};
use crate::text::{split_once_spec, trim_spec};

verus! {

/// The kinds of long notes whose follower lines are read.
#[derive(Clone, Copy, Debug, PartialEq, Eq, Structural)]
pub enum FollowerKind {
    /// A hold or AIR hold: `s` or `c` alone ends it on its own lane.
    Hold,
    /// A slide: every follower names its lane.
    Slide,
    /// An AIR slide: every follower names its lane, then its height.
    AirSlide,
    /// An AIR crush: `s` alone ends it on its own lane; other followers
    /// name their lane, then their height.
    Crush,
}

/// An AIR height as UGC writes it: a base-36 code that counts halves
/// above one when it is a single digit, twentieths above one otherwise.
#[derive(Clone, Copy, Debug, PartialEq, Eq, Structural)]
pub struct AirHeight {
    pub code: u32,
    pub single_digit: bool,
}

/// The height written by the text whose bytes are given, or the error for
/// that text.
pub open spec fn air_height_of(bytes: Seq<u8>) -> Result<AirHeight, FollowerFailure> {
    match air_height_raw(bytes) {
        Some(code) => Ok(AirHeight { code: code as u32, single_digit: bytes.len() == 1 }),
        None => Err(FollowerFailure::Invalid(decode_utf8(bytes))),
    }
}

/// A follower line of a long note, read.
#[derive(Clone, Copy, Debug, PartialEq, Eq, Structural)]
pub enum LongFollower {
    /// A point at the position given on the note's own lane.
    OnStartLane(Position),
    /// A point at the position given, on the lane given, of the kind its
    /// marker names, with its height for notes that have one.
    Point(Position, Lane, SlidePointKind, Option<AirHeight>),
}

/// Why a follower line is not read.
#[derive(Debug, PartialEq)]
pub enum FollowerFault {
    /// The line is in error.
    Ugc(UgcError),
    /// The data's bytes from the first index to the second are to be sliced
    /// out as text, and do not start or end on a character boundary.
    OffBoundary(usize, usize),
}

/// Why reading a follower fails.
pub enum FollowerFailure {
    Malformed,
    /// A value is invalid: reported with the text given.
    Invalid(Seq<char>),
    /// The record is not supported: reported with the text given.
    Unsupported(Seq<char>),
    Chart(ChartError),
}

/// How reading a follower stops short.
pub enum FollowerStop {
    Fails(FollowerFailure),
    OffBoundary(nat, nat),
}

/// The error that `stop` is reported with on line `line`.
pub open spec fn follower_stops_as(fault: FollowerFault, stop: FollowerStop, line: usize) -> bool {
    match stop {
        FollowerStop::Fails(failure) => fault matches FollowerFault::Ugc(error) && match failure {
            FollowerFailure::Malformed => error == UgcError::MalformedRecord { line },
            FollowerFailure::Invalid(text) => error matches UgcError::InvalidValue { line: l, value } && l == line
                && value@ == text,
            FollowerFailure::Unsupported(text) => error matches UgcError::UnsupportedRecord { line: l, record } && l
                == line && record@ == text,
            FollowerFailure::Chart(e) => error == UgcError::Chart { line, source: e },
        },
        FollowerStop::OffBoundary(start, end) => fault == FollowerFault::OffBoundary(start as usize, end as usize),
    }
}

/// The position `offset` ticks at `ticks_per_beat` after `start`.
pub open spec fn follower_position(start: Position, ticks_per_beat: nat, offset: nat) -> Result<Position, ChartError> {
    if ticks_per_beat == 0 {
        Err(ChartError::InvalidPositionDenominator)
    } else {
        sum(start, Position::from_fraction(offset, ticks_per_beat))
    }
}

/// The slider lane whose start and width are the base-36 digits given.
pub open spec fn lane_of_digits(start: u8, width: u8) -> Result<Lane, FollowerFailure> {
    match digit_value(start, 36) {
        None => Err(FollowerFailure::Invalid(seq![start as char])),
        Some(s) => match digit_value(width, 36) {
            None => Err(FollowerFailure::Invalid(seq![width as char])),
            Some(w) => if w == 0 {
                Err(FollowerFailure::Chart(ChartError::InvalidSliderLaneWidth))
            } else if !valid_slider(s as u8, w as u8) {
                Err(FollowerFailure::Chart(ChartError::InvalidSliderLane))
            } else {
                Ok(Lane::Slider { start: s as u8, width: w as u8 })
            },
        },
    }
}

/// The data alone ends the note on its own lane.
pub open spec fn ends_on_start_lane(kind: FollowerKind, data: Seq<char>) -> bool {
    match kind {
        FollowerKind::Hold => data == "s"@ || data == "c"@,
        FollowerKind::Crush => data == "s"@,
        _ => false,
    }
}

/// The follower data of a note of `kind` has a height after its lane.
pub open spec fn has_height(kind: FollowerKind) -> bool {
    kind is AirSlide || kind is Crush
}

/// What a follower line with `offset` and `data` of a note of `kind` that
/// starts at `start` says, at `ticks_per_beat`.
pub open spec fn long_follower(kind: FollowerKind, start: Position, ticks_per_beat: nat, offset: nat, data: Seq<char>) -> Result<
    LongFollower,
    FollowerStop,
> {
    let bytes = encode_utf8(data);
    if ends_on_start_lane(kind, data) {
        match follower_position(start, ticks_per_beat, offset) {
            Ok(p) => Ok(LongFollower::OnStartLane(p)),
            Err(e) => Err(FollowerStop::Fails(FollowerFailure::Chart(e))),
        }
    } else if bytes.len() < (if kind is Crush { 4nat } else { 3nat }) {
        Err(FollowerStop::Fails(FollowerFailure::Malformed))
    } else if bytes[0] != 115 && bytes[0] != 99 {
        Err(FollowerStop::Fails(FollowerFailure::Unsupported(seq![bytes[0] as char])))
    } else {
        match follower_position(start, ticks_per_beat, offset) {
            Err(e) => Err(FollowerStop::Fails(FollowerFailure::Chart(e))),
            Ok(p) => if !(is_char_boundary(bytes, 1) && is_char_boundary(bytes, 3)) {
                Err(FollowerStop::OffBoundary(1, 3))
            } else {
                match lane_of_digits(bytes[1], bytes[2]) {
                    Err(failure) => Err(FollowerStop::Fails(failure)),
                    Ok(lane) => {
                        let point_kind = if bytes[0] == 99 {
                            SlidePointKind::Control
                        } else {
                            SlidePointKind::Visible
                        };
                        if has_height(kind) {
                            match air_height_of(bytes.subrange(3, bytes.len() as int)) {
                                Ok(height) => Ok(LongFollower::Point(p, lane, point_kind, Some(height))),
                                Err(failure) => Err(FollowerStop::Fails(failure)),
                            }
                        } else {
                            Ok(LongFollower::Point(p, lane, point_kind, None))
                        }
                    },
                }
            },
        }
    }
}

/// The position of a follower.
fn follower_at(line: usize, start: Position, ticks_per_beat: u64, offset: u64) -> (result: Result<Position, FollowerFault>)
    ensures
        match follower_position(start, ticks_per_beat as nat, offset as nat) {
            Ok(p) => result == Ok::<Position, FollowerFault>(p),
            Err(e) => result == Err::<Position, FollowerFault>(FollowerFault::Ugc(UgcError::Chart { line, source: e })),
        },
{
    let length = match Position::new(offset, ticks_per_beat) {
        Ok(length) => length,
        Err(source) => return Err(FollowerFault::Ugc(UgcError::Chart { line, source })),
    };
    match start.checked_add(length) {
        Ok(p) => Ok(p),
        Err(source) => Err(FollowerFault::Ugc(UgcError::Chart { line, source })),
    }
}

/// Reads a follower line of a long note of `kind` that starts at `start`,
/// with its offset in ticks at `ticks_per_beat` and its data: a point on
/// the note's own lane, or a point on the lane the data names, of the kind
/// its marker names, with the text of its height for notes that have one.
pub fn read_long_follower(
    line: usize,
    kind: FollowerKind,
    start: Position,
    ticks_per_beat: u64,
    offset: u64,
    data: &str,
) -> (result: Result<LongFollower, FollowerFault>)
    ensures
        match long_follower(kind, start, ticks_per_beat as nat, offset as nat, data@) {
            Ok(read) => result == Ok::<LongFollower, FollowerFault>(read),
            Err(stop) => result matches Err(fault) && follower_stops_as(fault, stop, line),
        },
{
    broadcast use vstd::utf8::group_utf8_lib;

    proof {
        reveal_strlit("s");
        reveal_strlit("c");
    }
    let chars = crate::text::chars_of(data);
    let alone_s = chars.len() == 1 && chars[0] == 's';
    let alone_c = chars.len() == 1 && chars[0] == 'c';
    let on_start_lane = match kind {
        FollowerKind::Hold => alone_s || alone_c,
        FollowerKind::Crush => alone_s,
        _ => false,
    };
    proof {
        if alone_s {
            assert(data@ =~= "s"@);
        }
        if alone_c {
            assert(data@ =~= "c"@);
        }
        assert(data@ == "s"@ ==> alone_s);
        assert(data@ == "c"@ ==> alone_c);
    }
    if on_start_lane {
        return Ok(LongFollower::OnStartLane(follower_at(line, start, ticks_per_beat, offset)?));
    }
    let bytes = data.as_bytes();
    let least: usize = if kind == FollowerKind::Crush {
        4
    } else {
        3
    };
    if bytes.len() < least {
        return Err(FollowerFault::Ugc(UgcError::MalformedRecord { line }));
    }
    let marker = bytes[0];
    if marker != 115 && marker != 99 {
        let mut record = String::new();
        record.push(marker as char);
        return Err(FollowerFault::Ugc(unsupported_record(line, record.as_str())));
    }
    let position = follower_at(line, start, ticks_per_beat, offset)?;
    if !(data.is_char_boundary(1) && data.is_char_boundary(3)) {
        return Err(FollowerFault::OffBoundary(1, 3));
    }
    let (head, rest) = data.split_at(3);
    proof {
        vstd::utf8::valid_utf8_split(bytes@, 3);
        assert(head.spec_bytes() =~= bytes@.subrange(0, 3));
        vstd::utf8::is_char_boundary_iff_not_is_continuation_byte(bytes@, 1);
        vstd::utf8::is_char_boundary_iff_not_is_continuation_byte(head.spec_bytes(), 1);
    }
    let (_, lane_text) = head.split_at(1);
    proof {
        assert(lane_text.spec_bytes() =~= bytes@.subrange(1, 3));
    }
    let lane = match parse_lane(line, lane_text) {
        Ok(lane) => lane,
        Err(error) => return Err(FollowerFault::Ugc(error)),
    };
    let point_kind = if marker == 99 {
        SlidePointKind::Control
    } else {
        SlidePointKind::Visible
    };
    let height = if kind == FollowerKind::AirSlide || kind == FollowerKind::Crush {
        proof {
            assert(rest.spec_bytes() =~= bytes@.subrange(3, bytes@.len() as int));
            vstd::utf8::encode_utf8_decode_utf8(rest@);
        }
        let code = match air_height_code(line, rest) {
            Ok(code) => code,
            Err(error) => return Err(FollowerFault::Ugc(error)),
        };
        Some(AirHeight { code, single_digit: rest.as_bytes().len() == 1 })
    } else {
        None
    };
    Ok(LongFollower::Point(position, lane, point_kind, height))
}

/// What a hold or slide is once its followers are read: a hold on a lane
/// to an end, or a slide through its points.
#[derive(Debug, PartialEq, Eq)]
pub enum LongNoteShape {
    Hold(Lane, Position),
    Slide(Vec<SlidePoint>),
}

/// The lane a hold is on: in XLAIR mode a slider lane at a side button's
/// lanes stands for that button.
pub open spec fn hold_lane(mode: ChartMode, lane: Lane) -> Lane {
    match (mode, lane) {
        (ChartMode::Xlair, Lane::Slider { start, .. }) => match SideButton::from_lane_start_spec(start) {
            Some(button) => Lane::Side(button),
            None => lane,
        },
        _ => lane,
    }
}

/// Every point of the hold is on the lane of its first.
pub open spec fn one_lane(points: Seq<SlidePoint>) -> bool {
    forall|i: int| 0 <= i < points.len() ==> (#[trigger] points[i]).lane_spec() == points[0].lane_spec()
}

/// The result is a slide through `points`.
pub open spec fn slide_through(result: Result<LongNoteShape, UgcError>, points: Seq<SlidePoint>) -> bool {
    match result {
        Ok(LongNoteShape::Slide(kept)) => kept@ == points,
        _ => false,
    }
}

/// Finishes a hold or slide of the note at line `line` from its points, its
/// start first: a hold needs every point on one lane, and either needs a
/// point besides its start.
pub fn finish_long_note(line: usize, hold: bool, mode: ChartMode, points: Vec<SlidePoint>) -> (result: Result<
    LongNoteShape,
    UgcError,
>)
    requires
        points@.len() >= 1,
    ensures
        points@.len() == 1 ==> result == Err::<LongNoteShape, UgcError>(UgcError::MissingFollower { line }),
        points@.len() > 1 && hold && !one_lane(points@) ==> (result matches Err(
            UgcError::UnsupportedRecord { line: l, record },
        ) && l == line && record@ == "variable hold lane"@),
        points@.len() > 1 && hold && one_lane(points@) ==> result == Ok::<LongNoteShape, UgcError>(
            LongNoteShape::Hold(hold_lane(mode, points@[0].lane_spec()), points@.last().position_spec()),
        ),
        points@.len() > 1 && !hold ==> slide_through(result, points@),
{
    if points.len() == 1 {
        return Err(UgcError::MissingFollower { line });
    }
    if !hold {
        return Ok(LongNoteShape::Slide(points));
    }
    let first = points[0].lane();
    let mut i: usize = 0;
    while i < points.len()
        invariant
            hold,
            points@.len() > 1,
            i <= points@.len(),
            first == points@[0].lane_spec(),
            forall|j: int| 0 <= j < i ==> (#[trigger] points@[j]).lane_spec() == first,
        decreases points@.len() - i,
    {
        if points[i].lane() != first {
            proof {
                assert(!one_lane(points@));
            }
            return Err(unsupported_record(line, "variable hold lane"));
        }
        i += 1;
    }
    let lane = match (mode, first) {
        (ChartMode::Xlair, Lane::Slider { start, .. }) => match SideButton::from_xlair_lane_start(start) {
            Some(button) => Lane::Side(button),
            None => first,
        },
        _ => first,
    };
    Ok(LongNoteShape::Hold(lane, points[points.len() - 1].position()))
}


/// What the lines after a long note's record give, from line `i` on: how
/// many lines belong to the note, the indices of the directives among them,
/// the points the followers add, and what stops the reading, if anything.
/// Blank lines and comments belong to a hold or slide, not to an AIR crush;
/// the first other line that is no follower ends the note.
pub open spec fn scan_followers(
    kind: FollowerKind,
    start: Position,
    ticks_per_beat: nat,
    lines: Seq<Seq<char>>,
    i: nat,
) -> (nat, Seq<nat>, Seq<LongFollower>, Option<FollowerStop>)
    decreases lines.len() - i,
{
    if i >= lines.len() {
        (i, Seq::empty(), Seq::empty(), None)
    } else {
        let text = trim_spec(lines[i as int]);
        if !(kind is Crush) && (text.len() == 0 || text[0] == '\'') {
            scan_followers(kind, start, ticks_per_beat, lines, i + 1)
        } else if text.len() > 0 && text[0] == '@' {
            let rest = scan_followers(kind, start, ticks_per_beat, lines, i + 1);
            (rest.0, seq![i] + rest.1, rest.2, rest.3)
        } else {
            match follower_spec(text) {
                None => (i, Seq::empty(), Seq::empty(), None),
                Some((offset, data)) => match long_follower(kind, start, ticks_per_beat, offset, data) {
                    Err(stop) => (i, Seq::empty(), Seq::empty(), Some(stop)),
                    Ok(point) => {
                        let rest = scan_followers(kind, start, ticks_per_beat, lines, i + 1);
                        (rest.0, rest.1, seq![point] + rest.2, rest.3)
                    },
                },
            }
        }
    }
}

/// The lines after a long note's record, read: the index of the first line
/// that does not belong to the note, the indices of the directives among
/// the lines that do, in order, which the caller carries out, the points
/// the followers add, and what stopped the reading, reported on the line it
/// stopped at.
pub struct FollowerScan {
    pub end: usize,
    pub directives: Vec<usize>,
    pub points: Vec<LongFollower>,
    pub stop: Option<FollowerFault>,
}

/// The texts of strings.
pub open spec fn line_texts(lines: Seq<String>) -> Seq<Seq<char>> {
    lines.map_values(|line: String| line@)
}

/// Reads the lines of a document from index `from` on, which follow the
/// record of a long note of `kind` that starts at `start`, at
/// `ticks_per_beat`; the line at index `i` is line `i + 1`.
pub fn read_followers(kind: FollowerKind, start: Position, ticks_per_beat: u64, lines: &Vec<String>, from: usize) -> (scan: FollowerScan)
    requires
        lines@.len() + 1 <= usize::MAX,
    ensures
        ({
            let expected = scan_followers(kind, start, ticks_per_beat as nat, line_texts(lines@), from as nat);
            &&& scan.end == expected.0
            &&& scan.directives@.map_values(|d: usize| d as nat) == expected.1
            &&& scan.points@ == expected.2
            &&& match expected.3 {
                None => scan.stop is None,
                Some(stop) => scan.stop matches Some(fault) && follower_stops_as(fault, stop, (scan.end + 1) as usize),
            }
        }),
{
    let ghost texts = line_texts(lines@);
    let ghost tpb = ticks_per_beat as nat;
    let mut directives: Vec<usize> = Vec::new();
    let mut points: Vec<LongFollower> = Vec::new();
    let mut i: usize = from;
    proof {
        let r = scan_followers(kind, start, tpb, texts, from as nat);
        assert(Seq::<nat>::empty() + r.1 =~= r.1);
        assert(Seq::<LongFollower>::empty() + r.2 =~= r.2);
        assert(directives@.map_values(|d: usize| d as nat) =~= Seq::<nat>::empty());
    }
    while i < lines.len()
        invariant
            from <= i,
            texts == line_texts(lines@),
            tpb == ticks_per_beat as nat,
            lines@.len() + 1 <= usize::MAX,
            ({
                let whole = scan_followers(kind, start, tpb, texts, from as nat);
                let rest = scan_followers(kind, start, tpb, texts, i as nat);
                &&& whole.0 == rest.0
                &&& whole.1 == directives@.map_values(|d: usize| d as nat) + rest.1
                &&& whole.2 == points@ + rest.2
                &&& whole.3 == rest.3
            }),
        decreases lines@.len() - i,
    {
        let ghost rest_next = scan_followers(kind, start, tpb, texts, (i + 1) as nat);
        let chars = crate::text::chars_of(lines[i].as_str());
        let text = crate::text::trim(chars.as_slice());
        proof {
            assert(text@ == trim_spec(texts[i as int]));
        }
        if kind != FollowerKind::Crush && (text.len() == 0 || text[0] == '\'') {
            i += 1;
            continue;
        }
        if text.len() > 0 && text[0] == '@' {
            let ghost before = directives@.map_values(|d: usize| d as nat);
            directives.push(i);
            proof {
                assert(directives@.map_values(|d: usize| d as nat) =~= before.push(i as nat));
                assert(before + (seq![i as nat] + rest_next.1) =~= before.push(i as nat) + rest_next.1);
            }
            i += 1;
            continue;
        }
        let follower = crate::text::string_of(text.as_slice());
        let (offset, data) = match parse_follower(follower.as_str()) {
            Some(parts) => parts,
            None => {
                proof {
                    let whole = scan_followers(kind, start, tpb, texts, from as nat);
                    assert(whole.1 =~= directives@.map_values(|d: usize| d as nat));
                    assert(whole.2 =~= points@);
                }
                return FollowerScan { end: i, directives, points, stop: None };
            },
        };
        match read_long_follower(i + 1, kind, start, ticks_per_beat, offset, data.as_str()) {
            Ok(point) => {
                let ghost before = points@;
                points.push(point);
                proof {
                    assert(before + (seq![point] + rest_next.2) =~= points@ + rest_next.2);
                }
            },
            Err(fault) => {
                proof {
                    let whole = scan_followers(kind, start, tpb, texts, from as nat);
                    assert(whole.1 =~= directives@.map_values(|d: usize| d as nat));
                    assert(whole.2 =~= points@);
                }
                return FollowerScan { end: i, directives, points, stop: Some(fault) };
            },
        }
        i += 1;
    }
    proof {
        let whole = scan_followers(kind, start, tpb, texts, from as nat);
        assert(whole.1 =~= directives@.map_values(|d: usize| d as nat));
        assert(whole.2 =~= points@);
    }
    FollowerScan { end: i, directives, points, stop: None }
}

/// The points of a long note: its start on its own lane, then one point per
/// follower, on the note's lane for a follower that names none.
pub open spec fn follower_points(start: SlidePoint, followers: Seq<LongFollower>) -> Seq<SlidePoint> {
    seq![start] + followers.map_values(
        |f: LongFollower|
            match f {
                LongFollower::OnStartLane(p) => SlidePoint::from_parts(p, start.lane_spec(), SlidePointKind::Visible),
                LongFollower::Point(p, lane, kind, _) => SlidePoint::from_parts(p, lane, kind),
            },
    )
}

/// The points of a long note that starts at `start`, with the followers
/// given.
pub fn long_note_points(start: SlidePoint, followers: &Vec<LongFollower>) -> (points: Vec<SlidePoint>)
    ensures
        points@ == follower_points(start, followers@),
{
    let mut points = Vec::new();
    points.push(start);
    let mut k: usize = 0;
    proof {
        assert(points@ =~= follower_points(start, followers@.take(0)));
    }
    while k < followers.len()
        invariant
            k <= followers@.len(),
            points@ == follower_points(start, followers@.take(k as int)),
        decreases followers@.len() - k,
    {
        let point = match followers[k] {
            LongFollower::OnStartLane(p) => SlidePoint::new(p, start.lane()),
            LongFollower::Point(p, lane, kind, _) => SlidePoint::new(p, lane).with_kind(kind),
        };
        points.push(point);
        proof {
            assert(followers@.take(k + 1) =~= followers@.take(k as int).push(followers@[k as int]));
            assert(points@ =~= follower_points(start, followers@.take(k + 1)));
        }
        k += 1;
    }
    proof {
        assert(followers@.take(k as int) =~= followers@);
    }
    points
}

/// The point an AIR crush follower stands for: on the crush's lane and at
/// its height for a follower that names no lane, else where it says.
pub open spec fn crush_point(follower: LongFollower, lane: Lane, height: AirHeight) -> (Position, Lane, AirHeight) {
    match follower {
        LongFollower::OnStartLane(p) => (p, lane, height),
        LongFollower::Point(p, point_lane, _, point_height) => (p, point_lane, point_height.unwrap()),
    }
}

/// Every follower that names its lane also gives its height.
pub open spec fn followers_have_heights(followers: Seq<LongFollower>) -> bool {
    forall|i: int| 0 <= i < followers.len() ==> match #[trigger] followers[i] {
        LongFollower::Point(_, _, _, h) => h is Some,
        LongFollower::OnStartLane(_) => true,
    }
}

/// The points of an AIR crush that starts at `start` on `lane` at `height`,
/// with the followers given; an AIR crush needs at least one follower.
pub fn crush_points(
    line: usize,
    start: Position,
    lane: Lane,
    height: AirHeight,
    followers: &Vec<LongFollower>,
) -> (result: Result<Vec<(Position, Lane, AirHeight)>, UgcError>)
    requires
        followers_have_heights(followers@),
    ensures
        followers@.len() == 0 ==> result == Err::<Vec<(Position, Lane, AirHeight)>, UgcError>(
            UgcError::MissingFollower { line },
        ),
        followers@.len() > 0 ==> (result matches Ok(points) && points@ == seq![(start, lane, height)]
            + followers@.map_values(|f: LongFollower| crush_point(f, lane, height))),
{
    if followers.len() == 0 {
        return Err(UgcError::MissingFollower { line });
    }
    let mut points: Vec<(Position, Lane, AirHeight)> = Vec::new();
    points.push((start, lane, height));
    let mut k: usize = 0;
    while k < followers.len()
        invariant
            k <= followers@.len(),
            followers_have_heights(followers@),
            points@ == seq![(start, lane, height)] + followers@.take(k as int).map_values(
                |f: LongFollower| crush_point(f, lane, height),
            ),
        decreases followers@.len() - k,
    {
        let point = match followers[k] {
            LongFollower::OnStartLane(p) => (p, lane, height),
            LongFollower::Point(p, point_lane, _, point_height) => {
                proof {
                    assert(followers@[k as int] matches LongFollower::Point(_, _, _, h) && h is Some);
                }
                match point_height {
                    Some(h) => (p, point_lane, h),
                    None => (p, point_lane, height),
                }
            },
        };
        points.push(point);
        proof {
            assert(followers@.take(k + 1) =~= followers@.take(k as int).push(followers@[k as int]));
            assert(points@ =~= seq![(start, lane, height)] + followers@.take(k + 1).map_values(
                |f: LongFollower| crush_point(f, lane, height),
            ));
        }
        k += 1;
    }
    proof {
        assert(followers@.take(k as int) =~= followers@);
    }
    Ok(points)
}

/// The interval of an AIR crush's combo points written by `text`: none
/// given or `$` for one at the start, `0` for none, else every that many
/// ticks at `ticks_per_beat`.
pub open spec fn crush_interval(text: Seq<char>, ticks_per_beat: nat) -> Result<AirCrushInterval, FollowerFailure> {
    if text.len() == 0 || text == "$"@ {
        Ok(AirCrushInterval::Start)
    } else if text == "0"@ {
        Ok(AirCrushInterval::Trace)
    } else {
        match decimal_value(text, u64::MAX as nat) {
            None => Err(FollowerFailure::Invalid(text)),
            Some(v) => if ticks_per_beat == 0 {
                Err(FollowerFailure::Chart(ChartError::InvalidPositionDenominator))
            } else {
                Ok(AirCrushInterval::Every(Position::from_fraction(v, ticks_per_beat)))
            },
        }
    }
}

/// What the attributes of an AIR crush record say: its color, its height
/// and the interval of its combo points. The attributes are the height code
/// and a one-character color, then, after a comma, the interval.
pub open spec fn crush_attributes(attributes: Seq<char>, ticks_per_beat: nat) -> Result<
    (AirCrushColor, AirHeight, AirCrushInterval),
    FollowerFailure,
> {
    let (head, interval) = match split_once_spec(attributes, ',') {
        Some(parts) => parts,
        None => (attributes, Seq::empty()),
    };
    let bytes = encode_utf8(head);
    if bytes.len() == 0 || !is_char_boundary(bytes, bytes.len() - 1) {
        Err(FollowerFailure::Malformed)
    } else {
        let color_text = decode_utf8(bytes.subrange(bytes.len() - 1, bytes.len() as int));
        match air_crush_color_code(color_text) {
            None => Err(FollowerFailure::Invalid(color_text)),
            Some(color) => match air_height_of(bytes.subrange(0, bytes.len() - 1)) {
                Err(failure) => Err(failure),
                Ok(height) => match crush_interval(interval, ticks_per_beat) {
                    Err(failure) => Err(failure),
                    Ok(every) => Ok((color, height, every)),
                },
            },
        }
    }
}

/// Reads the attributes of an AIR crush record on line `line`: its color,
/// its height and the interval of its combo points, at `ticks_per_beat`.
pub fn read_crush_attributes(line: usize, ticks_per_beat: u64, attributes: &str) -> (result: Result<
    (AirCrushColor, AirHeight, AirCrushInterval),
    UgcError,
>)
    ensures
        match crush_attributes(attributes@, ticks_per_beat as nat) {
            Ok(read) => result == Ok::<(AirCrushColor, AirHeight, AirCrushInterval), UgcError>(read),
            Err(failure) => result matches Err(error) && follower_stops_as(
                FollowerFault::Ugc(error),
                FollowerStop::Fails(failure),
                line,
            ),
        },
{
    broadcast use vstd::utf8::group_utf8_lib;

    let chars = crate::text::chars_of(attributes);
    let (head_chars, interval_chars) = match crate::text::split_once(chars.as_slice(), ',') {
        Some(parts) => parts,
        None => (chars, Vec::new()),
    };
    let head = crate::text::string_of(head_chars.as_slice());
    let interval = crate::text::string_of(interval_chars.as_slice());
    let head = head.as_str();
    let bytes = head.as_bytes();
    if bytes.len() == 0 || !head.is_char_boundary(bytes.len() - 1) {
        return Err(UgcError::MalformedRecord { line });
    }
    let (height_text, color_text) = head.split_at(bytes.len() - 1);
    proof {
        assert(color_text.spec_bytes() =~= bytes@.subrange(bytes@.len() - 1, bytes@.len() as int));
        assert(height_text.spec_bytes() =~= bytes@.subrange(0, bytes@.len() - 1));
        vstd::utf8::encode_utf8_decode_utf8(color_text@);
        vstd::utf8::encode_utf8_decode_utf8(height_text@);
    }
    let color = parse_air_crush_color(line, color_text)?;
    let code = air_height_code(line, height_text)?;
    let height = AirHeight { code, single_digit: height_text.as_bytes().len() == 1 };
    proof {
        reveal_strlit("$");
        reveal_strlit("0");
    }
    let ichars = crate::text::chars_of(interval.as_str());
    let every = if ichars.len() == 0 || (ichars.len() == 1 && ichars[0] == '$') {
        proof {
            if ichars.len() == 1 {
                assert(interval@ =~= "$"@);
            }
        }
        AirCrushInterval::Start
    } else if ichars.len() == 1 && ichars[0] == '0' {
        proof {
            assert(interval@ =~= "0"@);
        }
        AirCrushInterval::Trace
    } else {
        proof {
            assert(interval@ != "$"@);
            assert(interval@ != "0"@);
        }
        let ticks = parse_u64(line, interval.as_str())?;
        match Position::new(ticks, ticks_per_beat) {
            Ok(every) => AirCrushInterval::Every(every),
            Err(source) => return Err(UgcError::Chart { line, source }),
        }
    };
    Ok((color, height, every))
}

} // verus!
