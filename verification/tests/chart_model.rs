use chart_converter::beat::Beat;
use chart_converter::chart::NoteId;
use chart_converter::error::ChartError;
use chart_converter::note::{append_slide_point, is_invalid_point_order, validate_slide, Lane, SideButton, SlidePoint, SlidePointKind};
use chart_converter::position::Position;
use chart_converter::timeline::MeasureTimeline;

#[test]
fn reduces_and_orders_absolute_positions() {
    let first = Position::new(2, 4).expect("valid position");
    let second = Position::new(3, 4).expect("valid position");

    assert_eq!(first, Position::new(1, 2).expect("valid position"));
    assert!(first < second);
}

#[test]
fn position_rejects_zero_denominator() {
    assert!(Position::new(0, 0).is_err());
}

#[test]
fn reduces_fraction_and_orders_by_measure_and_fraction() {
    let first = Beat::new(2, 2, 4).expect("valid beat");
    let second = Beat::new(2, 3, 4).expect("valid beat");

    assert_eq!(first, Beat::new(2, 1, 2).expect("valid beat"));
    assert!(first < second);
}

#[test]
fn beat_rejects_zero_denominator() {
    assert!(Beat::new(0, 0, 0).is_err());
}

#[test]
fn maps_variable_length_measures_to_absolute_positions() {
    let mut timeline = MeasureTimeline::new(Position::new(4, 1).expect("valid position"));
    timeline.set_length(1, Position::new(3, 1).expect("valid position"));

    assert_eq!(
        timeline.position(2, 1, 2).expect("valid position"),
        Position::new(17, 2).expect("valid position")
    );
}

#[test]
fn position_keeps_the_reduced_fraction() {
    let position = Position::new(6, 4).unwrap();
    assert_eq!(position.numerator(), 3);
    assert_eq!(position.denominator(), 2);
    assert_eq!(Position::new(0, 0), Err(ChartError::InvalidPositionDenominator));
    let whole = Position::new(u64::MAX, u64::MAX).unwrap();
    assert_eq!((whole.numerator(), whole.denominator()), (1, 1));
}

#[test]
fn checked_add_is_the_exact_sum() {
    let half = Position::new(1, 2).unwrap();
    let third = Position::new(1, 3).unwrap();
    assert_eq!(half.checked_add(third), Position::new(5, 6));
    let big = Position::new(u64::MAX, 1).unwrap();
    assert_eq!(big.checked_add(half), Err(ChartError::PositionOverflow));
}

#[test]
fn positions_order_by_value() {
    let a = Position::new(2, 3).unwrap();
    let b = Position::new(3, 4).unwrap();
    assert!(a < b);
    assert!(!(b < a));
    assert!(a <= Position::new(4, 6).unwrap());
}

#[test]
fn beats_order_by_measure_first() {
    let late_in_first = Beat::new(1, 3, 4).unwrap();
    let start_of_second = Beat::new(2, 0, 1).unwrap();
    assert!(late_in_first < start_of_second);
    assert_eq!(Beat::new(1, 4, 4), Err(ChartError::InvalidBeatFraction));
    assert_eq!(Beat::new(1, 1, 0), Err(ChartError::InvalidBeatDenominator));
    let beat = Beat::new(3, 6, 8).unwrap();
    assert_eq!((beat.measure(), beat.numerator(), beat.denominator()), (3, 3, 4));
}

#[test]
fn timeline_lengths_follow_the_last_change() {
    let mut timeline = MeasureTimeline::new(Position::new(4, 1).unwrap());
    timeline.set_length(2, Position::new(3, 1).unwrap());
    timeline.set_length(5, Position::new(2, 1).unwrap());
    timeline.set_length(2, Position::new(5, 2).unwrap());
    assert_eq!(timeline.length_of(0), Position::new(4, 1).unwrap());
    assert_eq!(timeline.length_of(3), Position::new(5, 2).unwrap());
    assert_eq!(timeline.length_of(7), Position::new(2, 1).unwrap());
}

#[test]
fn timeline_rejects_offsets_past_the_measure() {
    let timeline = MeasureTimeline::new(Position::new(4, 1).unwrap());
    assert_eq!(timeline.position(0, 3, 2), Err(ChartError::InvalidMeasureOffset));
    assert_eq!(timeline.position(0, 1, 0), Err(ChartError::InvalidPositionDenominator));
    assert_eq!(timeline.position(1, 2, 2), Position::new(8, 1));
}

#[test]
fn timeline_locates_a_position_in_its_measure() {
    let mut timeline = MeasureTimeline::new(Position::new(4, 1).unwrap());
    timeline.set_length(1, Position::new(3, 1).unwrap());
    assert_eq!(timeline.locate(Position::new(17, 2).unwrap(), 480), Ok((2, 720)));
    assert_eq!(timeline.locate(Position::new(1, 3).unwrap(), 480), Ok((0, 160)));
    assert_eq!(timeline.locate(Position::new(1, 7).unwrap(), 480), Err(ChartError::PositionNotOnTick));
    assert_eq!(timeline.ticks(1, 480), Ok(1440));
}

#[test]
fn slider_lanes_must_fit_the_sixteen_lanes() {
    assert_eq!(Lane::slider(0, 4), Ok(Lane::Slider { start: 0, width: 4 }));
    assert_eq!(Lane::slider(3, 0), Err(ChartError::InvalidSliderLaneWidth));
    assert_eq!(Lane::slider(15, 2), Err(ChartError::InvalidSliderLane));
    assert_eq!(Lane::slider(12, 4), Ok(Lane::Slider { start: 12, width: 4 }));
}

#[test]
fn lanes_overlap_when_they_share_a_lane() {
    let left = Lane::slider(0, 4).unwrap();
    assert!(left.overlaps(Lane::slider(3, 2).unwrap()));
    assert!(!left.overlaps(Lane::slider(4, 4).unwrap()));
    assert!(Lane::Side(SideButton::LeftUpper).overlaps(Lane::Side(SideButton::LeftUpper)));
    assert!(!Lane::Side(SideButton::LeftUpper).overlaps(left));
}

#[test]
fn side_buttons_are_found_from_their_lanes() {
    for button in [SideButton::LeftUpper, SideButton::LeftLower, SideButton::RightUpper, SideButton::RightLower] {
        assert_eq!(SideButton::from_xlair_lane_start(button.xlair_lane_start()), Some(button));
    }
    assert_eq!(SideButton::RightLower.xlair_lane_start(), 14);
    assert_eq!(SideButton::from_xlair_lane_start(3), Some(SideButton::LeftLower));
    assert_eq!(SideButton::from_xlair_lane_start(8), None);
}

#[test]
fn slide_points_keep_their_fields() {
    let position = Position::new(1, 1).unwrap();
    let lane = Lane::slider(2, 2).unwrap();
    let point = SlidePoint::new(position, lane).with_kind(SlidePointKind::Control);
    assert_eq!(point.position(), position);
    assert_eq!(point.lane(), lane);
    assert_eq!(point.kind(), &SlidePointKind::Control);
    assert_eq!(SlidePoint::new(position, lane).kind(), &SlidePointKind::Visible);
}

#[test]
fn slides_are_validated() {
    let start = Position::new(0, 1).unwrap();
    let end = Position::new(1, 1).unwrap();
    let lane = Lane::slider(0, 4).unwrap();
    let one = vec![SlidePoint::new(start, lane)];
    assert_eq!(validate_slide(start, lane, &one), Err(ChartError::InvalidSlidePointCount));
    let wrong_start = vec![SlidePoint::new(end, lane), SlidePoint::new(end, lane)];
    assert_eq!(validate_slide(start, lane, &wrong_start), Err(ChartError::InvalidSlideStart));
    let backwards = vec![SlidePoint::new(start, lane), SlidePoint::new(end, lane), SlidePoint::new(start, lane)];
    assert_eq!(validate_slide(start, lane, &backwards), Err(ChartError::InvalidSlidePointOrder));
    let same_time = vec![
        SlidePoint::new(start, lane),
        SlidePoint::new(start, Lane::slider(1, 2).unwrap()).with_kind(SlidePointKind::Control),
        SlidePoint::new(end, Lane::slider(4, 4).unwrap()),
    ];
    assert_eq!(validate_slide(start, lane, &same_time), Ok(()));
    assert!(is_invalid_point_order(end, start));
    assert!(!is_invalid_point_order(start, start));
}

#[test]
fn note_ids_keep_their_index() {
    assert_eq!(NoteId::new(3).value(), 3);
    assert_eq!(NoteId::new(3), NoteId::new(3));
}

#[test]
fn chart_errors_describe_themselves() {
    assert_eq!(ChartError::InvalidHoldEnd.message(), "hold end must be later than its start");
    assert_eq!(ChartError::InvalidPositionDenominator.message(), "position denominator must be greater than zero");
}

#[test]
fn located_positions_read_back() {
    let mut timeline = MeasureTimeline::new(Position::new(4, 1).unwrap());
    timeline.set_length(2, Position::new(3, 1).unwrap());
    let position = Position::new(19, 2).unwrap();
    let (measure, tick) = timeline.locate(position, 480).unwrap();
    assert_eq!((measure, tick), (2, 720));
    let total = timeline.ticks(measure, 480).unwrap();
    assert_eq!(total, 1440);
    assert_eq!(timeline.position(measure, tick, total), Ok(position));
}

fn length(n: u64, d: u64) -> Position {
    Position::new(n, d).unwrap()
}

#[test]
fn setting_a_measure_length_twice_keeps_the_second() {
    let mut twice = MeasureTimeline::new(length(4, 1));
    twice.set_length(3, length(3, 1));
    twice.set_length(3, length(5, 2));
    let mut once = MeasureTimeline::new(length(4, 1));
    once.set_length(3, length(5, 2));
    assert_eq!(twice.length_changes(), once.length_changes());
    assert_eq!(twice.length_changes(), &[(3, length(5, 2))]);
}

#[test]
fn setting_two_measure_lengths_commutes() {
    let mut first = MeasureTimeline::new(length(4, 1));
    first.set_length(5, length(3, 1));
    first.set_length(2, length(7, 2));
    let mut second = MeasureTimeline::new(length(4, 1));
    second.set_length(2, length(7, 2));
    second.set_length(5, length(3, 1));
    assert_eq!(first.length_changes(), second.length_changes());
    assert_eq!(first.length_changes(), &[(2, length(7, 2)), (5, length(3, 1))]);
}

#[test]
fn setting_a_measure_length_moves_only_later_measures() {
    let mut timeline = MeasureTimeline::new(length(4, 1));
    let before = timeline.position(1, 1, 2).unwrap();
    let start = timeline.position(2, 0, 1).unwrap();
    timeline.set_length(2, length(3, 1));
    assert_eq!(timeline.position(1, 1, 2).unwrap(), before);
    assert_eq!(timeline.position(2, 0, 1).unwrap(), start);
    assert_eq!(timeline.position(3, 0, 1).unwrap(), length(11, 1));
    assert_eq!(timeline.position(4, 0, 1).unwrap(), length(14, 1));
}

#[test]
fn slide_points_are_appended_in_time_order_only() {
    let lane = Lane::Slider { start: 0, width: 4 };
    let mut points = vec![SlidePoint::new(length(1, 1), lane), SlidePoint::new(length(2, 1), lane)];
    assert_eq!(append_slide_point(&mut points, SlidePoint::new(length(2, 1), lane)), Ok(()));
    assert_eq!(points.len(), 3);
    assert_eq!(
        append_slide_point(&mut points, SlidePoint::new(length(3, 2), lane)),
        Err(ChartError::InvalidSlidePointOrder)
    );
    assert_eq!(points.len(), 3);
}

#[test]
fn a_measure_ends_where_the_next_starts() {
    let mut timeline = MeasureTimeline::new(length(4, 1));
    timeline.set_length(1, length(7, 2));
    assert_eq!(timeline.position(1, 1, 1), timeline.position(2, 0, 1));
    assert_eq!(timeline.position(0, 0, 1), timeline.position(0, 0, 7));
    assert_eq!(timeline.position(1, 2, 4), timeline.position(1, 1, 2));
}

#[test]
fn positions_follow_their_measures_and_offsets() {
    let mut timeline = MeasureTimeline::new(length(4, 1));
    timeline.set_length(1, length(3, 1));
    let early = timeline.position(1, 1, 3).unwrap();
    let late = timeline.position(1, 2, 3).unwrap();
    let next = timeline.position(2, 0, 1).unwrap();
    assert!(early < late);
    assert!(late < next);
    assert_eq!(timeline.position(1, 3, 3).unwrap(), next);
}
