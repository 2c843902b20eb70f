//! The lines that a UGC document writes for a note that is not an AIR note.

use vstd::prelude::*;
use vstd::string::{StringExecFns, StringSliceAdditionalSpecFns};

use crate::chart::ChartMode;
use crate::note::{ExDirection, Lane, SlidePoint, TapKind};
use crate::position::Position;
use crate::text::{ascii_chars, decimal, digit_byte, digits_of};
use crate::ugc::{
    central_lane, encode_base36, encode_ex_direction, encode_flick_direction, encode_slide_point_marker, ex_direction_text,
    flick_direction_text, relative_tick, slide_point_letter, ugc_ticks, UgcError,
};

verus! {

/// What UGC writes of a note that is not an AIR note, besides where it
/// starts and on which lane.
pub enum UgcNote {
    Tap(TapKind),
    ExTap(ExDirection),
    Mine,
    /// A hold that ends at the position given.
    Hold(Position),
    /// An Ex hold that ends at the position given.
    ExHold(Position, ExDirection),
    /// A slide through the points given.
    Slide(Vec<SlidePoint>),
    /// An Ex slide through the points given.
    ExSlide(Vec<SlidePoint>, ExDirection),
    /// An AIR crush, which UGC cannot write.
    AirCrush,
}

/// Why the lines of a note cannot be written.
pub enum UgcFailure {
    /// A position does not fall on a tick.
    Unrepresentable,
    /// UGC cannot write what the text names.
    Unsupported(Seq<char>),
}

/// The error that `failure` is reported with.
pub open spec fn ugc_fails_as(result: Result<String, UgcError>, failure: UgcFailure) -> bool {
    match failure {
        UgcFailure::Unrepresentable => result matches Err(UgcError::UnrepresentablePosition),
        UgcFailure::Unsupported(text) => result matches Err(UgcError::UnsupportedNote { note }) && note@ == text,
    }
}

/// A lane start and width as two base-36 digits.
pub open spec fn lane_code(lane: u8, width: u8) -> Seq<char> {
    seq![digit_byte(lane as nat) as char, digit_byte(width as nat) as char]
}

/// The ticks, at 480 per beat, from `start` to `end`.
pub open spec fn offset_ticks(start: Position, end: Position) -> Option<nat> {
    match (ugc_ticks(start), ugc_ticks(end)) {
        (Some(s), Some(e)) => if s <= e {
            Some((e - s) as nat)
        } else {
            None
        },
        _ => None,
    }
}

/// A follower line: `#`, the offset, `>`, the marker and the lane code.
pub open spec fn follower_line(offset: nat, marker: char, lane: u8, width: u8) -> Seq<char> {
    "#"@ + ascii_chars(digits_of(offset, 10)) + ">"@ + seq![marker] + lane_code(lane, width) + "\n"@
}

/// The follower lines of the points of a path after its first, up to point `k`.
pub open spec fn path_text(start: Position, points: Seq<SlidePoint>, k: nat) -> Result<Seq<char>, UgcFailure>
    decreases k,
{
    if k <= 1 {
        Ok(Seq::empty())
    } else {
        match path_text(start, points, (k - 1) as nat) {
            Err(failure) => Err(failure),
            Ok(text) => {
                let point = points[k - 1];
                match point.lane_spec() {
                    Lane::Side(_) => Err(UgcFailure::Unsupported("side lane"@)),
                    Lane::Slider { start: lane, width } => match offset_ticks(start, point.position_spec()) {
                        None => Err(UgcFailure::Unrepresentable),
                        Some(offset) => match slide_point_letter(point.kind_spec()) {
                            None => Err(UgcFailure::Unsupported("invisible slide point"@)),
                            Some(marker) => Ok(text + follower_line(offset, marker, lane, width)),
                        },
                    },
                }
            },
        }
    }
}

/// The Ex carrier line of an Ex long note, when it is written.
pub open spec fn carrier_text(prefix: Seq<char>, code: Seq<char>, direction: ExDirection, written: bool) -> Result<
    Seq<char>,
    UgcFailure,
> {
    match ex_direction_text(direction) {
        None => Err(UgcFailure::Unsupported("diagonal Ex direction"@)),
        Some(text) => Ok(
            if written {
                prefix + "x"@ + code + text + "\n"@
            } else {
                Seq::empty()
            },
        ),
    }
}

/// The lines that UGC writes for a note at `position`, after `prefix`, on
/// the lane `lane` of `width` lanes.
pub open spec fn ugc_note_text(
    prefix: Seq<char>,
    position: Position,
    lane: u8,
    width: u8,
    carrier: bool,
    mode: ChartMode,
    note: UgcNote,
) -> Result<Seq<char>, UgcFailure> {
    let code = lane_code(lane, width);
    match note {
        UgcNote::Tap(TapKind::Tap) => Ok(prefix + "t"@ + code + "\n"@),
        UgcNote::Tap(TapKind::XTap) => Ok(prefix + "x"@ + code + "\n"@),
        UgcNote::Tap(TapKind::Flick { direction }) => match flick_direction_text(direction) {
            Some(text) => Ok(prefix + "f"@ + code + text + "\n"@),
            None => Err(UgcFailure::Unsupported("unsupported Flick direction"@)),
        },
        UgcNote::Tap(_) => Err(UgcFailure::Unsupported("SUS tap variant"@)),
        UgcNote::ExTap(direction) => if mode is Xlair {
            Ok(prefix + "x"@ + code + "\n"@)
        } else {
            match ex_direction_text(direction) {
                Some(text) => Ok(prefix + "x"@ + code + text + "\n"@),
                None => Err(UgcFailure::Unsupported("diagonal Ex direction"@)),
            }
        },
        UgcNote::Mine => Ok(prefix + "d"@ + code + "\n"@),
        UgcNote::Hold(end) => match offset_ticks(position, end) {
            Some(offset) => Ok(prefix + "h"@ + code + "\n"@ + follower_line(offset, 's', lane, width)),
            None => Err(UgcFailure::Unrepresentable),
        },
        UgcNote::ExHold(end, direction) => match offset_ticks(position, end) {
            None => Err(UgcFailure::Unrepresentable),
            Some(offset) => match carrier_text(prefix, code, direction, carrier) {
                Err(failure) => Err(failure),
                Ok(head) => Ok(head + prefix + "h"@ + code + "\n"@ + follower_line(offset, 's', lane, width)),
            },
        },
        UgcNote::Slide(points) => match path_text(position, points@, points@.len()) {
            Ok(path) => Ok(prefix + "s"@ + code + "\n"@ + path),
            Err(failure) => Err(failure),
        },
        UgcNote::ExSlide(points, direction) => match carrier_text(prefix, code, direction, carrier) {
            Err(failure) => Err(failure),
            Ok(head) => match path_text(position, points@, points@.len()) {
                Ok(path) => Ok(head + prefix + "s"@ + code + "\n"@ + path),
                Err(failure) => Err(failure),
            },
        },
        UgcNote::AirCrush => Err(UgcFailure::Unsupported("AIR Crush"@)),
    }
}

/// Slider lanes whose start and width are base-36 digits.
pub open spec fn base36_lane(lane: Lane) -> bool {
    match lane {
        Lane::Slider { start, width } => start < 36 && width < 36,
        Lane::Side(_) => true,
    }
}

/// Every point of a path whose follower line is reached has a lane code
/// of base-36 digits.
pub open spec fn path_codes_fit(start: Position, points: Seq<SlidePoint>) -> bool {
    forall|j: int|
        1 <= j < points.len() && path_text(start, points, (j + 1) as nat) is Ok ==> base36_lane(
            #[trigger] points[j].lane_spec(),
        )
}

/// Whether the record of a note gets as far as its lane code: every note
/// but those that fail before it, and those that UGC never writes.
pub open spec fn writes_lane_code(position: Position, mode: ChartMode, note: UgcNote) -> bool {
    match note {
        UgcNote::Tap(TapKind::Tap) | UgcNote::Tap(TapKind::XTap) | UgcNote::Mine => true,
        UgcNote::Tap(TapKind::Flick { direction }) => flick_direction_text(direction) is Some,
        UgcNote::Tap(_) => false,
        UgcNote::ExTap(direction) => mode is Xlair || ex_direction_text(direction) is Some,
        UgcNote::Hold(end) => offset_ticks(position, end) is Some,
        UgcNote::ExHold(end, direction) => offset_ticks(position, end) is Some && ex_direction_text(
            direction,
        ) is Some,
        UgcNote::Slide(_) => true,
        UgcNote::ExSlide(_, direction) => ex_direction_text(direction) is Some,
        UgcNote::AirCrush => false,
    }
}

/// Appends the lane code.
fn push_lane_code(out: &mut String, lane: u8, width: u8)
    requires
        lane < 36,
        width < 36,
    ensures
        final(out)@ == old(out)@ + lane_code(lane, width),
{
    let ghost before = out@;
    out.push(encode_base36(lane));
    out.push(encode_base36(width));
    proof {
        assert(out@ =~= before + lane_code(lane, width));
    }
}

/// Appends a follower line.
fn push_follower(out: &mut String, offset: u64, marker: char, lane: u8, width: u8)
    requires
        lane < 36,
        width < 36,
    ensures
        final(out)@ == old(out)@ + follower_line(offset as nat, marker, lane, width),
{
    let ghost before = out@;
    out.append("#");
    out.append(decimal(offset).as_str());
    out.append(">");
    out.push(marker);
    push_lane_code(out, lane, width);
    out.append("\n");
    proof {
        assert(out@ =~= before + follower_line(offset as nat, marker, lane, width));
    }
}

/// The follower lines of a path.
fn path_lines(start: Position, points: &Vec<SlidePoint>) -> (result: Result<String, UgcError>)
    requires
        path_codes_fit(start, points@),
    ensures
        match path_text(start, points@, points@.len()) {
            Ok(text) => result matches Ok(s) && s@ == text,
            Err(failure) => ugc_fails_as(result, failure),
        },
{
    let mut text = String::new();
    let mut k: usize = 1;
    proof {
        assert(text@ =~= Seq::<char>::empty());
    }
    while k < points.len()
        invariant
            1 <= k,
            k <= points@.len() || k == 1,
            path_codes_fit(start, points@),
            path_text(start, points@, k as nat) == Ok::<Seq<char>, UgcFailure>(text@),
        decreases points@.len() - k,
    {
        let point = points[k];
        let (lane, width) = match central_lane(point.lane()) {
            Ok(code) => code,
            Err(error) => {
                proof {
                    lemma_path_fails(start, points@, (k + 1) as nat, points@.len());
                }
                return Err(error);
            },
        };
        let offset = match relative_tick(start, point.position()) {
            Ok(offset) => offset,
            Err(error) => {
                proof {
                    lemma_path_fails(start, points@, (k + 1) as nat, points@.len());
                }
                return Err(error);
            },
        };
        let marker = match encode_slide_point_marker(*point.kind()) {
            Ok(marker) => marker,
            Err(error) => {
                proof {
                    lemma_path_fails(start, points@, (k + 1) as nat, points@.len());
                }
                return Err(error);
            },
        };
        proof {
            assert(path_text(start, points@, (k + 1) as nat) is Ok);
            assert(base36_lane(points@[k as int].lane_spec()));
        }
        push_follower(&mut text, offset, marker, lane, width);
        k += 1;
    }
    proof {
        if points@.len() >= 1 {
            assert(k == points@.len() || points@.len() == 1);
        }
        if points@.len() <= 1 {
            assert(path_text(start, points@, points@.len()) == Ok::<Seq<char>, UgcFailure>(Seq::empty()));
        }
    }
    Ok(text)
}

/// Once a point cannot be written, neither can the path.
proof fn lemma_path_fails(start: Position, points: Seq<SlidePoint>, k: nat, n: nat)
    requires
        2 <= k <= n,
        path_text(start, points, (k - 1) as nat) is Ok,
        path_text(start, points, k) is Err,
    ensures
        path_text(start, points, n) == path_text(start, points, k),
    decreases n - k,
{
    if n > k {
        lemma_path_fails(start, points, k, (n - 1) as nat);
    }
}

/// The Ex carrier line of an Ex long note, when it is written.
fn carrier_line(prefix: &str, lane: u8, width: u8, direction: ExDirection, written: bool) -> (result: Result<
    String,
    UgcError,
>)
    requires
        ex_direction_text(direction) is Some ==> lane < 36 && width < 36,
    ensures
        match carrier_text(prefix@, lane_code(lane, width), direction, written) {
            Ok(text) => result matches Ok(s) && s@ == text,
            Err(failure) => ugc_fails_as(result, failure),
        },
{
    let code = encode_ex_direction(direction)?;
    let mut text = String::new();
    if written {
        let ghost empty = text@;
        text.append(prefix);
        text.append("x");
        push_lane_code(&mut text, lane, width);
        text.append(code);
        text.append("\n");
        proof {
            assert(text@ =~= prefix@ + "x"@ + lane_code(lane, width) + code@ + "\n"@);
        }
    }
    Ok(text)
}

/// Writes the lines of a note that is not an AIR note: its record after
/// `prefix`, with the lane code of `lane` and `width`; the follower lines of
/// a hold or slide; for an Ex long note, first the Ex carrier line when
/// `carrier` asks for it.
pub fn ugc_note_lines(
    prefix: &str,
    position: Position,
    lane: u8,
    width: u8,
    carrier: bool,
    mode: ChartMode,
    note: &UgcNote,
) -> (result: Result<String, UgcError>)
    requires
        writes_lane_code(position, mode, *note) ==> lane < 36 && width < 36,
        note matches UgcNote::Slide(points) ==> path_codes_fit(position, points@),
        note matches UgcNote::ExSlide(points, _) ==> path_codes_fit(position, points@),
    ensures
        match ugc_note_text(prefix@, position, lane, width, carrier, mode, *note) {
            Ok(text) => result matches Ok(s) && s@ == text,
            Err(failure) => ugc_fails_as(result, failure),
        },
{
    let mut text = String::new();
    text.append(prefix);
    let ghost head = text@;
    match note {
        UgcNote::Tap(kind) => match kind {
            TapKind::Tap => {
                text.append("t");
                push_lane_code(&mut text, lane, width);
                text.append("\n");
                Ok(text)
            },
            TapKind::XTap => {
                text.append("x");
                push_lane_code(&mut text, lane, width);
                text.append("\n");
                Ok(text)
            },
            TapKind::Flick { direction } => {
                let code = encode_flick_direction(*direction)?;
                text.append("f");
                push_lane_code(&mut text, lane, width);
                text.append(code.as_str());
                text.append("\n");
                Ok(text)
            },
            _ => Err(UgcError::UnsupportedNote { note: String::from_str("SUS tap variant") }),
        },
        UgcNote::ExTap(direction) => {
            if mode == ChartMode::Xlair {
                text.append("x");
                push_lane_code(&mut text, lane, width);
                text.append("\n");
                return Ok(text);
            }
            let code = encode_ex_direction(*direction)?;
            text.append("x");
            push_lane_code(&mut text, lane, width);
            text.append(code);
            text.append("\n");
            Ok(text)
        },
        UgcNote::Mine => {
            text.append("d");
            push_lane_code(&mut text, lane, width);
            text.append("\n");
            Ok(text)
        },
        UgcNote::Hold(end) => {
            let offset = relative_tick(position, *end)?;
            text.append("h");
            push_lane_code(&mut text, lane, width);
            text.append("\n");
            push_follower(&mut text, offset, 's', lane, width);
            Ok(text)
        },
        UgcNote::ExHold(end, direction) => {
            let offset = relative_tick(position, *end)?;
            let mut lines = carrier_line(prefix, lane, width, *direction, carrier)?;
            let ghost before = lines@;
            lines.append(prefix);
            lines.append("h");
            push_lane_code(&mut lines, lane, width);
            lines.append("\n");
            push_follower(&mut lines, offset, 's', lane, width);
            proof {
                assert(lines@ =~= before + prefix@ + "h"@ + lane_code(lane, width) + "\n"@ + follower_line(
                    offset as nat,
                    's',
                    lane,
                    width,
                ));
            }
            Ok(lines)
        },
        UgcNote::Slide(points) => {
            let path = path_lines(position, points)?;
            text.append("s");
            push_lane_code(&mut text, lane, width);
            text.append("\n");
            text.append(path.as_str());
            Ok(text)
        },
        UgcNote::ExSlide(points, direction) => {
            let mut lines = carrier_line(prefix, lane, width, *direction, carrier)?;
            let path = path_lines(position, points)?;
            let ghost before = lines@;
            lines.append(prefix);
            lines.append("s");
            push_lane_code(&mut lines, lane, width);
            lines.append("\n");
            lines.append(path.as_str());
            proof {
                assert(lines@ =~= before + prefix@ + "s"@ + lane_code(lane, width) + "\n"@ + path@);
            }
            Ok(lines)
        },
        UgcNote::AirCrush => Err(UgcError::UnsupportedNote { note: String::from_str("AIR Crush") }),
    }
}

} // verus!
