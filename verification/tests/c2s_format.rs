use chart_converter::c2s::{
    c2s_lane, duration_ticks, encode_air_color, encode_air_crush_color, encode_air_direction,
    encode_ex_direction, is_loss, output_position, output_ticks, parse_air_color, parse_air_crush_color,
    parse_air_direction, parse_ex_direction, parse_u32, parse_u64, parse_u8, write_slide, C2sError,
};
use chart_converter::c2s_records::{
    air_crush_interval, check_meter, end_tick, field, lane, location, record_kind, record_position,
    resolution, scroll_duration, slide_end_kind, C2sRecord, ParentRecord, ParentSlots,
};
use chart_converter::chart::NoteId;
use chart_converter::error::ChartError;
use chart_converter::note::{
    AirColor, AirCrushColor, AirCrushInterval, AirDirection, ExDirection, Lane, SideButton, SlidePoint, SlidePointKind,
};
use chart_converter::position::Position;
use chart_converter::text::line_fields;
use chart_converter::timeline::MeasureTimeline;

fn fields(line: &str) -> Vec<String> {
    line_fields(line, '\t')
}

#[test]
fn reads_ex_direction_codes_and_their_aliases() {
    assert_eq!(parse_ex_direction(1, "UP"), Ok(ExDirection::Up));
    assert_eq!(parse_ex_direction(1, "ALL"), Ok(ExDirection::All));
    assert_eq!(parse_ex_direction(1, "VLT"), Ok(ExDirection::Wide));
    assert_eq!(parse_ex_direction(1, "I"), Ok(ExDirection::Inward));
    assert_eq!(
        parse_ex_direction(4, "XX"),
        Err(C2sError::InvalidValue { line: 4, value: "XX".to_owned() })
    );
}

#[test]
fn ex_directions_read_back_from_what_is_written() {
    for direction in [
        ExDirection::Up,
        ExDirection::Down,
        ExDirection::Center,
        ExDirection::All,
        ExDirection::Wide,
        ExDirection::Left,
        ExDirection::Right,
        ExDirection::Inward,
    ] {
        let code = encode_ex_direction(direction).unwrap();
        assert_eq!(parse_ex_direction(1, code), Ok(direction));
    }
    assert!(matches!(encode_ex_direction(ExDirection::UpperLeft), Err(C2sError::UnsupportedRecord { .. })));
}

#[test]
fn air_codes_read_back_from_what_is_written() {
    for direction in [
        AirDirection::Up,
        AirDirection::UpperLeft,
        AirDirection::UpperRight,
        AirDirection::Down,
        AirDirection::LowerLeft,
        AirDirection::LowerRight,
    ] {
        assert_eq!(parse_air_direction(1, encode_air_direction(direction)), Ok(direction));
    }
    assert_eq!(encode_air_direction(AirDirection::UpperRight), "AUR");
    for color in [AirColor::Normal, AirColor::Inverted] {
        assert_eq!(parse_air_color(1, encode_air_color(color)), Ok(color));
    }
    assert_eq!(parse_air_color(1, "GRN"), Ok(AirColor::Inverted));
    assert_eq!(parse_air_crush_color(1, encode_air_crush_color(AirCrushColor::DarkBlue)), Ok(AirCrushColor::DarkBlue));
    assert_eq!(encode_air_crush_color(AirCrushColor::Transparent), "NON");
    assert!(parse_air_crush_color(2, "ZZZ").is_err());
}

#[test]
fn reads_decimal_fields_like_str_parse() {
    assert_eq!(parse_u64(1, "384"), Ok(384));
    assert_eq!(parse_u64(1, "+7"), Ok(7));
    assert_eq!(parse_u8(1, "255"), Ok(255));
    assert_eq!(parse_u8(2, "256"), Err(C2sError::InvalidValue { line: 2, value: "256".to_owned() }));
    assert_eq!(parse_u32(3, ""), Err(C2sError::InvalidValue { line: 3, value: String::new() }));
    assert_eq!(parse_u64(1, "18446744073709551616").is_err(), true);
}

#[test]
fn splits_records_into_trimmed_tab_fields() {
    assert_eq!(fields("  TAP\t0\t96\t4\t2 \r"), vec!["TAP", "0", "96", "4", "2"]);
    assert_eq!(fields("A\t\tB"), vec!["A", "", "B"]);
    assert_eq!(fields(""), vec![""]);
}

#[test]
fn names_the_record_a_tag_introduces() {
    assert_eq!(record_kind("RESOLUTION"), Some(C2sRecord::Resolution));
    assert_eq!(record_kind("SLC"), Some(C2sRecord::Slide));
    assert_eq!(record_kind("SXD"), Some(C2sRecord::ExSlide));
    assert_eq!(record_kind("AHX"), Some(C2sRecord::AirHold));
    assert_eq!(record_kind("SLP"), Some(C2sRecord::ScrollSpeed));
    assert_eq!(record_kind("AUR"), None);
    assert_eq!(record_kind("VERSION"), None);
}

#[test]
fn reads_fields_of_a_record() {
    let record = fields("TAP\t1\t96\t4\t2");
    assert_eq!(field(5, &record, 3), Ok("4"));
    assert_eq!(field(5, &record, 9), Err(C2sError::MalformedRecord { line: 5 }));
    assert_eq!(location(5, &record), Ok((1, 96)));
    assert_eq!(location(6, &fields("TAP\t1")), Err(C2sError::MalformedRecord { line: 6 }));
    assert_eq!(
        location(7, &fields("TAP\tx\t0")),
        Err(C2sError::InvalidValue { line: 7, value: "x".to_owned() })
    );
    assert_eq!(lane(5, "4", "2"), Ok(Lane::Slider { start: 4, width: 2 }));
    assert_eq!(lane(5, "15", "2"), Err(C2sError::Chart { line: 5, source: ChartError::InvalidSliderLane }));
}

#[test]
fn resolution_must_be_positive() {
    assert_eq!(resolution(1, &fields("RESOLUTION\t384")), Ok(384));
    assert_eq!(
        resolution(1, &fields("RESOLUTION\t0")),
        Err(C2sError::InvalidValue { line: 1, value: "0".to_owned() })
    );
    assert_eq!(resolution(2, &fields("RESOLUTION")), Err(C2sError::MalformedRecord { line: 2 }));
}

#[test]
fn meters_may_not_contain_zero() {
    assert_eq!(check_meter(1, &fields("MET\t0\t0\t4\t4")), Ok(()));
    assert_eq!(
        check_meter(2, &fields("MET\t0\t0\t0\t4")),
        Err(C2sError::InvalidValue { line: 2, value: "0/4".to_owned() })
    );
    assert_eq!(check_meter(3, &fields("MET\t0\t0\t4")), Err(C2sError::MalformedRecord { line: 3 }));
}

#[test]
fn ticks_past_the_measure_carry_into_later_measures() {
    let timeline = MeasureTimeline::new(Position::new(4, 1).unwrap());
    assert_eq!(record_position(&timeline, Some(384), 1, 1, 576), Ok(Position::new(10, 1).unwrap()));
    assert_eq!(record_position(&timeline, None, 1, 0, 0), Err(C2sError::MissingResolution));
    assert_eq!(
        record_position(&timeline, Some(1), 9, u32::MAX, 1),
        Err(C2sError::InvalidValue { line: 9, value: "1".to_owned() })
    );
}

#[test]
fn long_records_end_after_their_duration() {
    assert_eq!(end_tick(1, 96, 192), Ok(288));
    assert_eq!(end_tick(2, u64::MAX, 3), Err(C2sError::InvalidValue { line: 2, value: "3".to_owned() }));
    assert_eq!(scroll_duration(1, 96, Some(384)), Ok(Position::new(1, 1).unwrap()));
    assert_eq!(scroll_duration(1, 96, None), Err(C2sError::MissingResolution));
}

#[test]
fn air_crush_intervals_are_trace_repeat_or_start() {
    assert_eq!(air_crush_interval(0), AirCrushInterval::Trace);
    assert_eq!(air_crush_interval(48), AirCrushInterval::Every(Position::new(1, 2).unwrap()));
    assert_eq!(air_crush_interval(9599), AirCrushInterval::Every(Position::new(9599, 96).unwrap()));
    assert_eq!(air_crush_interval(9600), AirCrushInterval::Start);
}

#[test]
fn slide_tags_ending_in_c_end_at_control_points() {
    assert_eq!(slide_end_kind("SLC"), SlidePointKind::Control);
    assert_eq!(slide_end_kind("SXC"), SlidePointKind::Control);
    assert_eq!(slide_end_kind("SLD"), SlidePointKind::Visible);
    assert_eq!(slide_end_kind(""), SlidePointKind::Visible);
}

#[test]
fn air_records_attach_to_the_latest_parent_of_their_kind() {
    let mut slots = ParentSlots::new();
    assert_eq!(
        slots.air_parent(3, "TAP"),
        Err(C2sError::InvalidValue { line: 3, value: "AIR without TAP parent".to_owned() })
    );
    slots.remember(ParentRecord::Tap, NoteId::new(1));
    slots.remember(ParentRecord::Tap, NoteId::new(4));
    slots.remember(ParentRecord::Mine, NoteId::new(5));
    assert_eq!(slots.air_parent(3, "TAP"), Ok(NoteId::new(4)));
    assert_eq!(
        slots.air_parent(3, "MNE"),
        Err(C2sError::InvalidValue { line: 3, value: "AIR without MNE parent".to_owned() })
    );
    assert_eq!(slots.long_air_parent(3, Some("MNE")), Ok(NoteId::new(5)));
    assert_eq!(
        slots.long_air_parent(3, Some("HLD")),
        Err(C2sError::InvalidValue { line: 3, value: "AIR long note without a parent".to_owned() })
    );
    assert_eq!(
        slots.long_air_parent(3, Some("XYZ")),
        Err(C2sError::InvalidValue { line: 3, value: "XYZ".to_owned() })
    );
    assert_eq!(slots.long_air_parent(3, None), Err(C2sError::MalformedRecord { line: 3 }));
}

#[test]
fn positions_are_written_at_ninety_six_ticks_per_beat() {
    assert_eq!(output_ticks(Position::new(9, 2).unwrap()), Ok(432));
    assert_eq!(output_ticks(Position::new(1, 5).unwrap()), Err(C2sError::UnrepresentablePosition));
    assert_eq!(output_position(Position::new(9, 2).unwrap()), Ok((1, 48)));
    assert_eq!(
        duration_ticks(Position::new(1, 1).unwrap(), Position::new(3, 2).unwrap()),
        Ok(48)
    );
    assert_eq!(
        duration_ticks(Position::new(3, 2).unwrap(), Position::new(1, 1).unwrap()),
        Err(C2sError::UnrepresentablePosition)
    );
    assert_eq!(c2s_lane(Lane::slider(3, 5).unwrap()), Ok((3, 5)));
    assert!(matches!(c2s_lane(Lane::Side(SideButton::LeftUpper)), Err(C2sError::UnsupportedRecord { .. })));
}

#[test]
fn writes_a_slide_segment_per_record() {
    let start = Position::new(0, 1).unwrap();
    let middle = Position::new(1, 2).unwrap();
    let end = Position::new(1, 1).unwrap();
    let points = vec![
        SlidePoint::new(start, Lane::slider(0, 4).unwrap()),
        SlidePoint::new(middle, Lane::slider(2, 4).unwrap()).with_kind(SlidePointKind::Control),
        SlidePoint::new(end, Lane::slider(4, 4).unwrap()),
    ];
    assert_eq!(
        write_slide(&points, None).unwrap(),
        "SLC\t0\t0\t0\t4\t48\t2\t4\nSLD\t0\t48\t2\t4\t48\t4\t4"
    );
    assert_eq!(
        write_slide(&points[..1], None),
        Err(C2sError::UnsupportedRecord { line: 0, record: "slide without an end point".to_owned() })
    );
    let two = vec![points[0], points[2]];
    assert_eq!(
        write_slide(&two, Some(ExDirection::Left)).unwrap(),
        "SXD\t0\t0\t0\t4\t96\t4\t4\tLS"
    );
}

#[test]
fn c2s_errors_describe_themselves() {
    assert_eq!(C2sError::MalformedRecord { line: 2 }.message(), "line 2: malformed record");
    assert_eq!(
        C2sError::InvalidValue { line: 12, value: "x".to_owned() }.message(),
        "line 12: invalid value `x`"
    );
    assert_eq!(
        C2sError::Chart { line: 1, source: ChartError::InvalidHoldEnd }.message(),
        "line 1: hold end must be later than its start"
    );
    assert!(is_loss(&C2sError::UnrepresentablePosition));
    assert!(!is_loss(&C2sError::MissingResolution));
}

#[test]
fn written_c2s_positions_read_back() {
    let timeline = MeasureTimeline::new(Position::new(4, 1).unwrap());
    for (n, d) in [(0, 1), (19, 2), (7, 3), (1, 96), (4, 1)] {
        let position = Position::new(n, d).unwrap();
        let (measure, tick) = output_position(position).unwrap();
        assert_eq!(record_position(&timeline, Some(384), 1, measure, tick), Ok(position));
    }
    assert_eq!(output_position(Position::new(19, 2).unwrap()), Ok((2, 144)));
}
