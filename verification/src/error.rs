//! Errors of the shared chart model.

use vstd::prelude::*;

verus! {

/// Why a chart value could not be constructed or changed.
#[derive(Clone, Copy, Debug, PartialEq, Eq, Structural)]
pub enum ChartError {
    InvalidPositionDenominator,
    PositionOverflow,
    InvalidMeasureOffset,
    InvalidMeasureLength,
    InvalidSliderLane,
    InvalidSliderLaneWidth,
    InvalidHoldEnd,
    InvalidSlidePointCount,
    InvalidSlideStart,
    InvalidSlidePointOrder,
    InvalidTempo,
    InvalidScrollSpeed,
    InvalidScrollSpeedDuration,
    InvalidAirHeight,
    InvalidAirCrushInterval,
    InvalidNoteId,
    InvalidBeatDenominator,
    InvalidBeatFraction,
    InvalidNoteAttribute,
    PositionNotOnTick,
}

impl ChartError {
    /// The sentence that describes the error.
    pub open spec fn text(self) -> Seq<char> {
        match self {
            ChartError::InvalidPositionDenominator => "position denominator must be greater than zero"@,
            ChartError::PositionOverflow => "position arithmetic overflowed"@,
            ChartError::InvalidMeasureOffset => "measure offset must be between zero and one"@,
            ChartError::InvalidMeasureLength => "measure length must be greater than zero"@,
            ChartError::InvalidSliderLane => "slider lane must fit within the sixteen central lanes"@,
            ChartError::InvalidSliderLaneWidth => "slider lane width must be greater than zero"@,
            ChartError::InvalidHoldEnd => "hold end must be later than its start"@,
            ChartError::InvalidSlidePointCount => "slide must contain at least two points"@,
            ChartError::InvalidSlideStart => "slide must start at the note position and lane"@,
            ChartError::InvalidSlidePointOrder => "slide points must be strictly ordered in time"@,
            ChartError::InvalidTempo => "tempo must be finite and greater than zero"@,
            ChartError::InvalidScrollSpeed => "scroll speed must be finite"@,
            ChartError::InvalidScrollSpeedDuration => "scroll speed duration must be greater than zero"@,
            ChartError::InvalidAirHeight => "air height must be finite and non-negative"@,
            ChartError::InvalidAirCrushInterval => "air crush interval must be greater than zero"@,
            ChartError::InvalidNoteId => "note id does not refer to a note in the chart"@,
            ChartError::InvalidBeatDenominator => "beat denominator must be greater than zero"@,
            ChartError::InvalidBeatFraction => "beat fraction must be less than one"@,
            ChartError::InvalidNoteAttribute => "note attribute must be finite and in range"@,
            ChartError::PositionNotOnTick => "position does not fall on a tick of the resolution"@,
        }
    }

    /// The sentence that describes the error.
    pub fn message(self) -> (text: &'static str)
        ensures
            text@ == self.text(),
    {
        match self {
            ChartError::InvalidPositionDenominator => "position denominator must be greater than zero",
            ChartError::PositionOverflow => "position arithmetic overflowed",
            ChartError::InvalidMeasureOffset => "measure offset must be between zero and one",
            ChartError::InvalidMeasureLength => "measure length must be greater than zero",
            ChartError::InvalidSliderLane => "slider lane must fit within the sixteen central lanes",
            ChartError::InvalidSliderLaneWidth => "slider lane width must be greater than zero",
            ChartError::InvalidHoldEnd => "hold end must be later than its start",
            ChartError::InvalidSlidePointCount => "slide must contain at least two points",
            ChartError::InvalidSlideStart => "slide must start at the note position and lane",
            ChartError::InvalidSlidePointOrder => "slide points must be strictly ordered in time",
            ChartError::InvalidTempo => "tempo must be finite and greater than zero",
            ChartError::InvalidScrollSpeed => "scroll speed must be finite",
            ChartError::InvalidScrollSpeedDuration => "scroll speed duration must be greater than zero",
            ChartError::InvalidAirHeight => "air height must be finite and non-negative",
            ChartError::InvalidAirCrushInterval => "air crush interval must be greater than zero",
            ChartError::InvalidNoteId => "note id does not refer to a note in the chart",
            ChartError::InvalidBeatDenominator => "beat denominator must be greater than zero",
            ChartError::InvalidBeatFraction => "beat fraction must be less than one",
            ChartError::InvalidNoteAttribute => "note attribute must be finite and in range",
            ChartError::PositionNotOnTick => "position does not fall on a tick of the resolution",
        }
    }
}

} // verus!
