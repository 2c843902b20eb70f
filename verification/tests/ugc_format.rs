use chart_converter::error::ChartError;
use chart_converter::note::{AirColor, AirCrushColor, AirDirection, ExDirection, Lane, SideButton, SlidePointKind};
use chart_converter::position::Position;
use chart_converter::timeline::MeasureTimeline;
use chart_converter::ugc::{
    absolute_tick, air_color_suffix, air_height_code, base36, beat_length, central_lane, directive_kind,
    encode_air_color, encode_air_crush_color, encode_air_direction, encode_air_height_code, encode_base36,
    encode_ex_direction, encode_flick_direction, encode_slide_point_marker, header_kind, is_loss,
    is_xlair_side_air_direction, note_position, offset_flag, output_position, parse_air_crush_color,
    parse_air_direction, parse_bool, parse_ex_direction, parse_flick_direction, parse_follower, parse_lane,
    parse_measure_tick, parse_u32, parse_u64, relative_tick, speed_group, split_directive, ticks_per_beat,
    unsupported_record, UgcError, UgcRecord,
};

#[test]
fn reads_lanes_as_two_base36_digits() {
    assert_eq!(parse_lane(1, "4a"), Ok(Lane::Slider { start: 4, width: 10 }));
    assert_eq!(parse_lane(1, "04"), Ok(Lane::Slider { start: 0, width: 4 }));
    assert_eq!(parse_lane(2, "4"), Err(UgcError::MalformedRecord { line: 2 }));
    assert_eq!(parse_lane(3, "4!"), Err(UgcError::InvalidValue { line: 3, value: "!".to_owned() }));
    assert_eq!(parse_lane(4, "g1"), Err(UgcError::Chart { line: 4, source: ChartError::InvalidSliderLane }));
    assert_eq!(base36(1, b'Z'), Ok(35));
}

#[test]
fn splits_directives_at_the_first_tab() {
    assert_eq!(split_directive("@TICKS\t 480 "), ("@TICKS".to_owned(), "480".to_owned()));
    assert_eq!(split_directive("@ENDHEAD"), ("@ENDHEAD".to_owned(), String::new()));
    assert_eq!(split_directive("@BEAT\t0\t4\t4"), ("@BEAT".to_owned(), "0\t4\t4".to_owned()));
}

#[test]
fn reads_ugc_measure_and_tick_pairs() {
    assert_eq!(parse_measure_tick(1, "1'480"), Ok((1, 480)));
    assert_eq!(parse_measure_tick(2, "1480"), Err(UgcError::MalformedRecord { line: 2 }));
    assert_eq!(
        parse_measure_tick(3, "1'x"),
        Err(UgcError::InvalidValue { line: 3, value: "x".to_owned() })
    );
    assert_eq!(parse_u64(1, "480"), Ok(480));
    assert_eq!(parse_u32(1, "4294967296"), Err(UgcError::InvalidValue { line: 1, value: "4294967296".to_owned() }));
}

#[test]
fn reads_follower_lines() {
    assert_eq!(parse_follower("#480>s04"), Some((480, "s04".to_owned())));
    assert_eq!(parse_follower("#0>"), Some((0, String::new())));
    assert_eq!(parse_follower("480>s04"), None);
    assert_eq!(parse_follower("#x>s04"), None);
    assert_eq!(parse_follower("#480"), None);
}

#[test]
fn reads_and_writes_direction_codes() {
    assert_eq!(parse_ex_direction(1, "W"), Ok(ExDirection::Wide));
    assert_eq!(encode_ex_direction(ExDirection::Inward).unwrap(), "I");
    assert!(matches!(encode_ex_direction(ExDirection::LowerLeft), Err(UgcError::UnsupportedNote { .. })));
    assert_eq!(parse_air_direction(1, encode_air_direction(AirDirection::LowerRight)), Ok(AirDirection::LowerRight));
    assert_eq!(encode_air_direction(AirDirection::Up), "UC");
    assert_eq!(parse_air_crush_color(1, "Y"), Ok(AirCrushColor::Purple));
    assert_eq!(encode_air_crush_color(AirCrushColor::Black), "D");
    assert_eq!(encode_air_color(AirColor::Inverted), 'I');
    assert_eq!(parse_bool(1, "TRUE"), Ok(true));
    assert_eq!(parse_bool(2, "yes"), Err(UgcError::InvalidValue { line: 2, value: "yes".to_owned() }));
}

#[test]
fn flicks_without_a_direction_read_back_as_written() {
    assert_eq!(parse_flick_direction(1, ""), Ok(None));
    assert_eq!(parse_flick_direction(1, "A"), Ok(None));
    assert_eq!(parse_flick_direction(1, "L"), Ok(Some(ExDirection::Left)));
    for direction in [None, Some(ExDirection::Left), Some(ExDirection::Right)] {
        let code = encode_flick_direction(direction).unwrap();
        assert_eq!(parse_flick_direction(1, &code), Ok(direction));
    }
    assert_eq!(encode_flick_direction(Some(ExDirection::All)).unwrap(), "A");
    assert!(matches!(encode_flick_direction(Some(ExDirection::Up)), Err(UgcError::UnsupportedNote { .. })));
}

#[test]
fn reads_air_height_codes() {
    assert_eq!(air_height_code(1, "a"), Ok(10));
    assert_eq!(air_height_code(1, "zz"), Ok(1295));
    assert_eq!(air_height_code(1, ""), Ok(0));
    assert_eq!(air_height_code(2, "+1"), Err(UgcError::InvalidValue { line: 2, value: "+1".to_owned() }));
    assert_eq!(air_color_suffix(1, "5I"), Ok(("5".to_owned(), AirColor::Inverted)));
    assert_eq!(air_color_suffix(1, "N"), Ok((String::new(), AirColor::Normal)));
    assert_eq!(air_color_suffix(3, "5X"), Err(UgcError::InvalidValue { line: 3, value: "5X".to_owned() }));
}

#[test]
fn writes_air_heights_and_digits() {
    assert_eq!(encode_air_height_code(30), "0u");
    assert_eq!(encode_air_height_code(1295), "zz");
    assert_eq!(air_height_code(1, &encode_air_height_code(700)), Ok(700));
    assert_eq!(encode_base36(11), 'b');
    assert_eq!(encode_slide_point_marker(SlidePointKind::Control), Ok('c'));
    assert!(matches!(encode_slide_point_marker(SlidePointKind::Invisible), Err(UgcError::UnsupportedNote { .. })));
}

#[test]
fn reads_header_values() {
    assert_eq!(beat_length(1, "2 3 4"), Ok((2, Position::new(3, 1).unwrap())));
    assert_eq!(beat_length(1, "0\t6\t8"), Ok((0, Position::new(3, 1).unwrap())));
    assert_eq!(beat_length(2, "2 0 4"), Err(UgcError::InvalidValue { line: 2, value: "2 0 4".to_owned() }));
    assert_eq!(beat_length(3, "2 3"), Err(UgcError::MalformedRecord { line: 3 }));
    assert_eq!(offset_flag(1, "SOFFSET TRUE"), Ok(Some(true)));
    assert_eq!(offset_flag(1, "OTHER X"), Ok(None));
    assert_eq!(offset_flag(2, "SOFFSET yes"), Err(UgcError::InvalidValue { line: 2, value: "yes".to_owned() }));
    assert_eq!(ticks_per_beat(1, "480"), Ok(480));
    assert_eq!(ticks_per_beat(4, "0"), Err(UgcError::InvalidValue { line: 4, value: "0".to_owned() }));
    assert_eq!(speed_group(0), None);
    assert_eq!(speed_group(3), Some(3));
}

#[test]
fn names_the_ugc_record_a_tag_introduces() {
    assert_eq!(header_kind("@BEAT"), Some(UgcRecord::Beat));
    assert_eq!(header_kind("@SPDFLD"), Some(UgcRecord::SpeedDefinition));
    assert_eq!(header_kind("@VER"), None);
    assert_eq!(directive_kind("@TIL"), Some(UgcRecord::GroupSpeed));
    assert_eq!(directive_kind("@BEAT"), None);
    assert_eq!(
        unsupported_record(5, "@SPDDEF"),
        UgcError::UnsupportedRecord { line: 5, record: "@SPDDEF".to_owned() }
    );
}

#[test]
fn note_positions_follow_the_measure_offset() {
    let timeline = MeasureTimeline::new(Position::new(4, 1).unwrap());
    assert_eq!(note_position(&timeline, 480, false, 1, 1, 960), Ok(Position::new(6, 1).unwrap()));
    assert_eq!(note_position(&timeline, 480, true, 1, 1, 960), Ok(Position::new(10, 1).unwrap()));
    assert_eq!(
        note_position(&timeline, 480, false, 2, 0, 3840),
        Err(UgcError::Chart { line: 2, source: ChartError::InvalidMeasureOffset })
    );
    assert_eq!(
        note_position(&timeline, u64::MAX, false, 3, 0, 0),
        Err(UgcError::InvalidValue { line: 3, value: u64::MAX.to_string() })
    );
}

#[test]
fn positions_are_written_at_480_ticks_per_beat() {
    let timeline = MeasureTimeline::new(Position::new(4, 1).unwrap());
    assert_eq!(absolute_tick(Position::new(1, 2).unwrap()), Ok(240));
    assert_eq!(absolute_tick(Position::new(1, 7).unwrap()), Err(UgcError::UnrepresentablePosition));
    assert_eq!(
        relative_tick(Position::new(1, 1).unwrap(), Position::new(3, 2).unwrap()),
        Ok(240)
    );
    assert_eq!(
        relative_tick(Position::new(1, 1).unwrap(), Position::new(1, 2).unwrap()),
        Err(UgcError::UnrepresentablePosition)
    );
    assert_eq!(output_position(Position::new(5, 1).unwrap(), &timeline), Ok((1, 480)));
    assert_eq!(central_lane(Lane::slider(1, 2).unwrap()), Ok((1, 2)));
    assert!(matches!(central_lane(Lane::Side(SideButton::RightLower)), Err(UgcError::UnsupportedNote { .. })));
}

#[test]
fn diagonal_air_is_played_on_side_buttons() {
    assert!(is_xlair_side_air_direction(AirDirection::UpperLeft));
    assert!(is_xlair_side_air_direction(AirDirection::LowerRight));
    assert!(!is_xlair_side_air_direction(AirDirection::Up));
}

#[test]
fn ugc_errors_describe_themselves() {
    assert_eq!(UgcError::MissingFollower { line: 7 }.message(), "line 7: a note is missing a follower line");
    assert_eq!(
        UgcError::UnsupportedNote { note: "side lane".to_owned() }.message(),
        "cannot represent `side lane` in the supported UGC output"
    );
    assert_eq!(
        UgcError::UnsupportedRecord { line: 1, record: "@SPDDEF".to_owned() }.message(),
        "line 1: unsupported record `@SPDDEF`"
    );
    assert!(is_loss(&UgcError::UnrepresentablePosition));
    assert!(!is_loss(&UgcError::MalformedRecord { line: 1 }));
}

#[test]
fn written_ugc_positions_read_back_on_four_beat_measures() {
    let timeline = MeasureTimeline::new(Position::new(4, 1).unwrap());
    for (n, d) in [(0, 1), (19, 2), (7, 3), (1, 480), (12, 1)] {
        let position = Position::new(n, d).unwrap();
        let (measure, tick) = output_position(position, &timeline).unwrap();
        assert_eq!(note_position(&timeline, 480, false, 1, measure, tick), Ok(position));
    }
}
