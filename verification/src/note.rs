//! Lanes, note flavours and slide paths of the shared chart model.

use vstd::prelude::*;

use crate::error::ChartError;
use crate::position::Position;

verus! {

/// Where a note is played: a span of the sixteen central lanes, or one of the
/// four side buttons.
#[derive(Clone, Copy, Debug, PartialEq, Eq, Structural)]
pub enum Lane {
    Slider { start: u8, width: u8 },
    Side(SideButton),
}

/// The span `start..start + width` fits in the sixteen central lanes.
pub open spec fn valid_slider(start: u8, width: u8) -> bool {
    width > 0 && start < 16 && start + width <= 16
}

impl Lane {
    /// A slider lane of `width` lanes starting at `start`.
    pub fn slider(start: u8, width: u8) -> (result: Result<Self, ChartError>)
        ensures
            width == 0 ==> result == Err::<Self, ChartError>(ChartError::InvalidSliderLaneWidth),
            width != 0 && !valid_slider(start, width) ==> result == Err::<Self, ChartError>(
                ChartError::InvalidSliderLane,
            ),
            valid_slider(start, width) ==> result == Ok::<Self, ChartError>(
                Lane::Slider { start, width },
            ),
    {
        if width == 0 {
            return Err(ChartError::InvalidSliderLaneWidth);
        }
        if start >= 16 || width > 16 || (start as u16) + (width as u16) > 16 {
            return Err(ChartError::InvalidSliderLane);
        }
        Ok(Lane::Slider { start, width })
    }

    /// Two lanes share a central lane, or are the same side button.
    pub open spec fn overlaps_spec(self, other: Self) -> bool {
        match (self, other) {
            (Lane::Slider { start: a, width: w }, Lane::Slider { start: b, width: v }) => a < b + v
                && b < a + w,
            (Lane::Side(x), Lane::Side(y)) => x == y,
            _ => false,
        }
    }

    /// Whether two lanes share a central lane, or are the same side button.
    pub fn overlaps(self, other: Self) -> (result: bool)
        ensures
            result == self.overlaps_spec(other),
    {
        match (self, other) {
            (Lane::Slider { start: a, width: w }, Lane::Slider { start: b, width: v }) => {
                (a as u16) < (b as u16) + (v as u16) && (b as u16) < (a as u16) + (w as u16)
            },
            (Lane::Side(x), Lane::Side(y)) => x == y,
            _ => false,
        }
    }
}

/// The four side buttons of XLAIR charts.
#[derive(Clone, Copy, Debug, PartialEq, Eq, Structural)]
pub enum SideButton {
    LeftUpper,
    LeftLower,
    RightLower,
    RightUpper,
}

impl SideButton {
    /// The first central lane that XLAIR SUS uses for this button.
    pub open spec fn lane_start_spec(self) -> u8 {
        match self {
            SideButton::LeftUpper => 0,
            SideButton::LeftLower => 2,
            SideButton::RightUpper => 12,
            SideButton::RightLower => 14,
        }
    }

    /// The button whose XLAIR SUS lanes include `lane`: lanes 0 and 1 are the
    /// upper left button, 2 and 3 the lower left, 12 and 13 the upper right
    /// and 14 and 15 the lower right.
    pub open spec fn from_lane_start_spec(lane: u8) -> Option<Self> {
        if lane <= 1 {
            Some(SideButton::LeftUpper)
        } else if lane <= 3 {
            Some(SideButton::LeftLower)
        } else if 12 <= lane <= 13 {
            Some(SideButton::RightUpper)
        } else if 14 <= lane <= 15 {
            Some(SideButton::RightLower)
        } else {
            None
        }
    }

    /// The first central lane that XLAIR SUS uses for this button.
    pub fn xlair_lane_start(self) -> (lane: u8)
        ensures
            lane == self.lane_start_spec(),
    {
        match self {
            SideButton::LeftUpper => 0,
            SideButton::LeftLower => 2,
            SideButton::RightUpper => 12,
            SideButton::RightLower => 14,
        }
    }

    /// The button whose XLAIR SUS lanes include `lane`, if any.
    pub fn from_xlair_lane_start(lane: u8) -> (button: Option<Self>)
        ensures
            button == Self::from_lane_start_spec(lane),
    {
        if lane <= 1 {
            Some(SideButton::LeftUpper)
        } else if lane <= 3 {
            Some(SideButton::LeftLower)
        } else if 12 <= lane && lane <= 13 {
            Some(SideButton::RightUpper)
        } else if 14 <= lane && lane <= 15 {
            Some(SideButton::RightLower)
        } else {
            None
        }
    }
}

/// Every side button is found again from the lane it is written at.
pub proof fn lemma_side_button_lane_round_trip(button: SideButton)
    ensures
        SideButton::from_lane_start_spec(button.lane_start_spec()) == Some(button),
{
}

#[derive(Clone, Copy, Debug, PartialEq, Eq, Structural)]
pub enum TapKind {
    Tap,
    XTap,
    Flick { direction: Option<ExDirection> },
    Tap4,
    Tap5,
    Tap6,
}

#[derive(Clone, Copy, Debug, PartialEq, Eq, Structural)]
pub enum ExDirection {
    Up,
    Down,
    Center,
    All,
    Wide,
    Left,
    Right,
    Inward,
    UpperLeft,
    UpperRight,
    LowerLeft,
    LowerRight,
}

#[derive(Clone, Copy, Debug, PartialEq, Eq, Structural)]
pub enum AirDirection {
    Up,
    UpperLeft,
    UpperRight,
    Down,
    LowerLeft,
    LowerRight,
}

#[derive(Clone, Copy, Debug, PartialEq, Eq, Structural)]
pub enum AirColor {
    Normal,
    Inverted,
}

#[derive(Clone, Copy, Debug, PartialEq, Eq, Structural)]
pub enum AirCrushColor {
    Normal,
    Transparent,
    Red,
    Orange,
    Yellow,
    Lime,
    Green,
    Aqua,
    Cyan,
    DarkBlue,
    Blue,
    Violet,
    Purple,
    Pink,
    Gray,
    Black,
}

/// Describes how an AIR Crush creates combo points along its path.
///
/// C2S and UGC use different textual values for the same three semantics: a
/// zero interval is an AIR-TRACE, `$` is a start-only crush, and a positive
/// interval repeats combo points at that distance.
#[derive(Clone, Copy, Debug, PartialEq, Eq, Structural)]
pub enum AirCrushInterval {
    /// Do not create combo points along the path.
    Trace,
    /// Create a combo point only at the start of the path.
    Start,
    /// Repeat combo points at the given positive interval.
    Every(Position),
}

#[derive(Clone, Copy, Debug, PartialEq, Eq, Structural)]
pub enum SlidePointKind {
    Visible,
    Control,
    Invisible,
}

/// A point of a slide path.
#[derive(Clone, Copy, Debug, PartialEq, Eq, Structural)]
pub struct SlidePoint {
    position: Position,
    lane: Lane,
    kind: SlidePointKind,
}

impl SlidePoint {
    pub closed spec fn position_spec(self) -> Position {
        self.position
    }

    pub closed spec fn lane_spec(self) -> Lane {
        self.lane
    }

    pub closed spec fn kind_spec(self) -> SlidePointKind {
        self.kind
    }

    /// The point of that kind at `position` on `lane`.
    pub closed spec fn from_parts(position: Position, lane: Lane, kind: SlidePointKind) -> Self {
        SlidePoint { position, lane, kind }
    }

    /// The parts of a point are those it was made of.
    pub proof fn lemma_parts(position: Position, lane: Lane, kind: SlidePointKind)
        ensures
            Self::from_parts(position, lane, kind).position_spec() == position,
            Self::from_parts(position, lane, kind).lane_spec() == lane,
            Self::from_parts(position, lane, kind).kind_spec() == kind,
    {
    }

    /// A visible point at `position` on `lane`.
    pub fn new(position: Position, lane: Lane) -> (point: Self)
        ensures
            point.position_spec() == position,
            point.lane_spec() == lane,
            point.kind_spec() == SlidePointKind::Visible,
            point == Self::from_parts(position, lane, SlidePointKind::Visible),
    {
        Self { position, lane, kind: SlidePointKind::Visible }
    }

    /// The same point with another kind.
    pub fn with_kind(self, kind: SlidePointKind) -> (point: Self)
        ensures
            point.position_spec() == self.position_spec(),
            point.lane_spec() == self.lane_spec(),
            point.kind_spec() == kind,
            point == Self::from_parts(self.position_spec(), self.lane_spec(), kind),
    {
        Self { kind, ..self }
    }

    pub fn position(&self) -> (position: Position)
        ensures
            position == self.position_spec(),
    {
        self.position
    }

    pub fn lane(&self) -> (lane: Lane)
        ensures
            lane == self.lane_spec(),
    {
        self.lane
    }

    pub fn kind(&self) -> (kind: &SlidePointKind)
        ensures
            *kind == self.kind_spec(),
    {
        &self.kind
    }
}

/// A later path point may not come before the previous one; C2S can encode
/// zero-duration segments, so equal positions are allowed.
pub open spec fn invalid_point_order(previous: Position, current: Position) -> bool {
    current.is_before(previous)
}

/// Whether `current` comes before `previous`.
pub fn is_invalid_point_order(previous: Position, current: Position) -> (invalid: bool)
    ensures
        invalid == invalid_point_order(previous, current),
{
    previous > current
}

/// Appends `point` to a slide's points; a point before the last one is
/// refused and the points are left as they were.
pub fn append_slide_point(points: &mut Vec<SlidePoint>, point: SlidePoint) -> (result: Result<(), ChartError>)
    ensures
        old(points)@.len() > 0 && invalid_point_order(old(points)@.last().position_spec(), point.position_spec())
            ==> result == Err::<(), ChartError>(ChartError::InvalidSlidePointOrder) && final(points)@ == old(points)@,
        !(old(points)@.len() > 0 && invalid_point_order(old(points)@.last().position_spec(), point.position_spec()))
            ==> result == Ok::<(), ChartError>(()) && final(points)@ == old(points)@.push(point),
{
    let count = points.len();
    if count > 0 && is_invalid_point_order(points[count - 1].position(), point.position()) {
        return Err(ChartError::InvalidSlidePointOrder);
    }
    points.push(point);
    Ok(())
}

/// The result of checking that `points` is a slide path for a note at
/// `position` on `lane`.
pub open spec fn slide_check(position: Position, lane: Lane, points: Seq<SlidePoint>) -> Result<
    (),
    ChartError,
> {
    if points.len() < 2 {
        Err(ChartError::InvalidSlidePointCount)
    } else if points[0].position_spec() != position || points[0].lane_spec() != lane {
        Err(ChartError::InvalidSlideStart)
    } else if exists|i: int|
        0 <= i < points.len() - 1 && invalid_point_order(
            #[trigger] points[i].position_spec(),
            points[i + 1].position_spec(),
        ) {
        Err(ChartError::InvalidSlidePointOrder)
    } else {
        Ok(())
    }
}

/// Checks that a slide path has at least two points, starts at the note and
/// never goes back in time.
pub fn validate_slide(position: Position, lane: Lane, points: &[SlidePoint]) -> (result: Result<
    (),
    ChartError,
>)
    ensures
        result == slide_check(position, lane, points@),
{
    if points.len() < 2 {
        return Err(ChartError::InvalidSlidePointCount);
    }
    if points[0].position != position || points[0].lane != lane {
        return Err(ChartError::InvalidSlideStart);
    }
    let mut index: usize = 0;
    while index < points.len() - 1
        invariant
            points@.len() >= 2,
            index + 1 <= points@.len(),
            points@[0].position_spec() == position,
            points@[0].lane_spec() == lane,
            forall|i: int|
                0 <= i < index ==> !invalid_point_order(
                    #[trigger] points@[i].position_spec(),
                    points@[i + 1].position_spec(),
                ),
        decreases points@.len() - index,
    {
        if is_invalid_point_order(points[index].position(), points[index + 1].position()) {
            proof {
                let i = index as int;
                assert(0 <= i < points@.len() - 1 && invalid_point_order(
                    points@[i].position_spec(),
                    points@[i + 1].position_spec(),
                ));
            }
            return Err(ChartError::InvalidSlidePointOrder);
        }
        index += 1;
    }
    Ok(())
}

} // verus!
