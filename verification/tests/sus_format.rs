use chart_converter::note::{ExDirection, Lane, SideButton};
use chart_converter::position::Position;
use chart_converter::sus::{
    allocate_channel, base36, base36_byte, base36_digit, central_lane, channel, duration_ticks, format_position,
    measure_length_lines,
    format_record, invalid_token, is_loss, is_metadata, lane_width, lcm, parse_group, parse_measure_tick,
    parse_position, record_kind_order, side_button, side_direction, side_lane, speed_group, speed_group_text,
    standard_channel_line, standard_ex_direction, standard_ticks_per_beat, xlair_required_ticks, xlair_ticks_per_beat,
    SusError,
};
use chart_converter::sus_lines::{
    attribute_definition, attribute_name, bpm_default_value, definition_kind, parse_request, second_word, sus_line,
    DefinitionKind, SusLineKind,
    SusRequest,
};
use chart_converter::timeline::MeasureTimeline;

fn four_four() -> MeasureTimeline {
    MeasureTimeline::new(Position::new(4, 1).unwrap())
}

#[test]
fn reads_measure_lengths_as_exact_decimals() {
    assert_eq!(parse_position("4"), Ok(Position::new(4, 1).unwrap()));
    assert_eq!(parse_position("3.5"), Ok(Position::new(7, 2).unwrap()));
    assert_eq!(parse_position("0.125"), Ok(Position::new(1, 8).unwrap()));
    assert_eq!(parse_position("3."), Ok(Position::new(3, 1).unwrap()));
    assert_eq!(parse_position("3.x"), Err(()));
    assert_eq!(parse_position("x"), Err(()));
}

#[test]
fn writes_measure_lengths_as_decimals() {
    assert_eq!(format_position(Position::new(4, 1).unwrap()).unwrap(), "4");
    assert_eq!(format_position(Position::new(7, 2).unwrap()).unwrap(), "3.5");
    assert_eq!(format_position(Position::new(1, 8).unwrap()).unwrap(), "0.125");
    assert_eq!(format_position(Position::new(1, 3).unwrap()), Err(SusError::UnrepresentablePosition));
}

#[test]
fn written_measure_lengths_read_back_unchanged() {
    for (n, d) in [(4, 1), (7, 2), (3, 8), (11, 5), (1, 1024)] {
        let length = Position::new(n, d).unwrap();
        let text = format_position(length).unwrap();
        assert_eq!(parse_position(&text), Ok(length));
    }
}

#[test]
fn reads_base36_digits_in_either_case() {
    assert_eq!(base36_byte(b'7', 1), Ok(7));
    assert_eq!(base36_byte(b'a', 1), Ok(10));
    assert_eq!(base36_byte(b'Z', 1), Ok(35));
    assert_eq!(base36_byte(b'!', 4), Err(SusError::InvalidValue { line: 4, value: "!".to_owned() }));
    assert_eq!(base36('g', 1), Ok(16));
    assert_eq!(base36_digit(35), 'z');
}

#[test]
fn speed_groups_are_two_base36_digits() {
    assert_eq!(parse_group(1, "11"), Ok(37));
    assert_eq!(parse_group(2, "1"), Err(SusError::MalformedCommand { line: 2 }));
    assert_eq!(speed_group_text(37), "11");
    assert_eq!(parse_group(1, &speed_group_text(1295)), Ok(1295));
    assert_eq!(speed_group(1295), Ok(1295));
    assert_eq!(speed_group(1296), Err(SusError::UnrepresentablePosition));
}

#[test]
fn reads_measure_and_tick_pairs() {
    assert_eq!(parse_measure_tick(1, "2'240"), Ok((2, 240)));
    assert_eq!(parse_measure_tick(2, "2240"), Err(SusError::MalformedCommand { line: 2 }));
    assert_eq!(
        parse_measure_tick(3, "x'1"),
        Err(SusError::InvalidValue { line: 3, value: "x".to_owned() })
    );
}

#[test]
fn recognises_metadata_commands() {
    assert!(is_metadata("TITLE \"song\""));
    assert!(is_metadata("WAVEOFFSET 0"));
    assert!(!is_metadata("REQUEST x"));
}

#[test]
fn side_buttons_have_lanes_and_direction_codes() {
    assert_eq!(side_lane(SideButton::RightUpper), 12);
    assert_eq!(side_button(13), Some(SideButton::RightUpper));
    assert_eq!(side_direction(SideButton::LeftLower), '5');
    assert_eq!(standard_ex_direction(ExDirection::UpperRight), Ok('4'));
    assert!(matches!(standard_ex_direction(ExDirection::All), Err(SusError::UnsupportedNote { .. })));
}

#[test]
fn only_slider_lanes_are_written_in_lane_data() {
    assert_eq!(central_lane(Lane::slider(5, 3).unwrap(), "tap"), Ok(5));
    assert_eq!(
        central_lane(Lane::Side(SideButton::LeftUpper), "tap"),
        Err(SusError::UnsupportedNote { note: "tap".to_owned() })
    );
    assert_eq!(lane_width(Lane::slider(5, 3).unwrap()), Ok(3));
}

#[test]
fn computes_least_common_multiples() {
    assert_eq!(lcm(4, 6), Some(12));
    assert_eq!(lcm(96, 5), Some(480));
    assert_eq!(lcm(u64::MAX, 2), None);
}

#[test]
fn channels_are_base36_digits() {
    assert_eq!(channel(0), Ok('0'));
    assert_eq!(channel(10), Ok('a'));
    assert_eq!(channel(36), Err(SusError::UnrepresentablePosition));
}

#[test]
fn long_notes_take_the_first_channel_they_do_not_touch() {
    let mut channels: Vec<Vec<(Position, Position)>> = vec![Vec::new(); 3];
    let p = |n: u64| Position::new(n, 1).unwrap();
    assert_eq!(allocate_channel(&mut channels, p(0), p(2)), Ok('0'));
    assert_eq!(allocate_channel(&mut channels, p(1), p(3)), Ok('1'));
    assert_eq!(allocate_channel(&mut channels, p(2), p(4)), Ok('2'));
    assert_eq!(allocate_channel(&mut channels, p(3), p(5)), Ok('0'));
    assert_eq!(channels[0], vec![(p(0), p(2)), (p(3), p(5))]);
    assert_eq!(allocate_channel(&mut channels, p(0), p(9)), Err(SusError::UnrepresentablePosition));
}

#[test]
fn records_are_placed_at_their_tick_of_the_measure() {
    let timeline = four_four();
    assert_eq!(format_record(&timeline, 1, 2, 1, "10", "14").unwrap(), "#00210: 00140000\n");
    assert_eq!(format_record(&timeline, 1, 2, 4, "10", "14"), Err(SusError::UnrepresentablePosition));
    assert_eq!(
        standard_channel_line(Position::new(9, 1).unwrap(), '1', 3, '1', 4, 1, &timeline).unwrap(),
        "#00213: 00140000"
    );
}

#[test]
fn orders_starts_before_relays_before_ends() {
    assert_eq!(record_kind_order("14"), 0);
    assert_eq!(record_kind_order("34"), 1);
    assert_eq!(record_kind_order("24"), 2);
    assert_eq!(record_kind_order(""), 0);
}

#[test]
fn hold_durations_count_ticks() {
    let start = Position::new(0, 1).unwrap();
    let end = Position::new(1, 1).unwrap();
    assert_eq!(duration_ticks(start, end, 1920), Ok(480));
    assert_eq!(duration_ticks(end, start, 1920), Err(SusError::UnrepresentablePosition));
    assert_eq!(duration_ticks(start, Position::new(1, 3).unwrap(), 4), Err(SusError::UnrepresentablePosition));
}

#[test]
fn xlair_resolution_follows_the_position_in_its_measure() {
    let timeline = four_four();
    assert_eq!(xlair_required_ticks(&timeline, Position::new(1, 1).unwrap()), Ok(1));
    assert_eq!(xlair_required_ticks(&timeline, Position::new(1, 3).unwrap()), Ok(3));
    assert_eq!(xlair_required_ticks(&timeline, Position::new(9, 2).unwrap()), Ok(2));
}

#[test]
fn sus_errors_describe_themselves() {
    assert_eq!(SusError::MalformedCommand { line: 4 }.message(), "line 4: malformed command");
    assert_eq!(SusError::MissingEnd { channel: 'a' }.message(), "channel `a` has no end point");
    assert_eq!(
        SusError::MissingStart { line: 2, channel: '0' }.message(),
        "line 2: channel `0` has no start point"
    );
    assert_eq!(
        SusError::UnsupportedNote { note: "x".to_owned() }.message(),
        "cannot represent `x` in the supported SUS output"
    );
    assert!(is_loss(&SusError::UnrepresentablePosition));
    assert!(!is_loss(&SusError::MalformedCommand { line: 1 }));
}

#[test]
fn invalid_tokens_keep_their_text() {
    assert_eq!(invalid_token(3, b"9x"), SusError::InvalidValue { line: 3, value: "9x".to_owned() });
    assert_eq!(invalid_token(3, &[0xff]), SusError::InvalidValue { line: 3, value: "\u{fffd}".to_owned() });
}

#[test]
fn standard_resolution_is_the_common_denominator() {
    let p = |n: u64, d: u64| Position::new(n, d).unwrap();
    assert_eq!(standard_ticks_per_beat(&vec![]), Ok(1));
    assert_eq!(standard_ticks_per_beat(&vec![p(1, 2), p(2, 3), p(5, 1)]), Ok(6));
    assert_eq!(standard_ticks_per_beat(&vec![p(1, 1023)]), Ok(1023));
    assert_eq!(standard_ticks_per_beat(&vec![p(1, 1024)]), Err(SusError::UnrepresentablePosition));
}

#[test]
fn xlair_resolution_covers_lengths_and_positions() {
    let p = |n: u64, d: u64| Position::new(n, d).unwrap();
    let mut timeline = four_four();
    assert_eq!(xlair_ticks_per_beat(&timeline, &vec![]), Ok(96));
    assert_eq!(xlair_ticks_per_beat(&timeline, &vec![p(1, 3)]), Ok(96));
    assert_eq!(xlair_ticks_per_beat(&timeline, &vec![p(1, 256)]), Ok(768));
    timeline.set_length(1, p(7, 5));
    assert_eq!(xlair_ticks_per_beat(&timeline, &vec![]), Ok(480));
    assert_eq!(timeline.length_changes(), &[(1, p(7, 5))]);
}

#[test]
fn sus_lines_are_taken_apart() {
    assert_eq!(sus_line("  ").kind, SusLineKind::Skip);
    assert_eq!(sus_line("no hash").kind, SusLineKind::Skip);
    assert_eq!(sus_line("#COMMENT anything").kind, SusLineKind::Skip);
    let request = sus_line("  # REQUEST \"ticks_per_beat 480\"  ");
    assert_eq!(request.kind, SusLineKind::Request);
    assert_eq!(request.command, "REQUEST \"ticks_per_beat 480\"");
    assert_eq!(sus_line("#NOSPEED").kind, SusLineKind::NoSpeed);
    assert_eq!(sus_line("#NOSPEEDS").kind, SusLineKind::Malformed);
    assert_eq!(sus_line("#ATR 01 = 2").kind, SusLineKind::AttributeDefinition);
    assert_eq!(sus_line("#ATTRIBUTE 01").kind, SusLineKind::Attribute);
    assert_eq!(sus_line("#TITLE \"song\"").kind, SusLineKind::Metadata);
    let data = sus_line("#00110 : 1 4 0 0");
    assert_eq!(data.kind, SusLineKind::Definition);
    assert_eq!(data.header, "00110");
    assert_eq!(data.data, "1400");
}

#[test]
fn requests_set_priority_and_resolution() {
    assert_eq!(parse_request(1, "REQUEST \"ticks_per_beat 480\""), Ok(SusRequest::TicksPerBeat(480)));
    assert_eq!(parse_request(1, "REQUEST \"enable_priority true\""), Ok(SusRequest::Priority(true)));
    assert_eq!(parse_request(1, "REQUEST enable_priority 0"), Ok(SusRequest::Priority(false)));
    assert_eq!(
        parse_request(2, "REQUEST \"enable_priority maybe\""),
        Err(SusError::InvalidValue { line: 2, value: "maybe".to_owned() })
    );
    assert_eq!(
        parse_request(3, "REQUEST \"ticks_per_beat 0\""),
        Err(SusError::InvalidValue { line: 3, value: "0".to_owned() })
    );
    assert_eq!(
        parse_request(4, "REQUEST \"side_lane true\""),
        Err(SusError::UnsupportedCommand { line: 4, command: "REQUEST \"side_lane true\"".to_owned() })
    );
}

#[test]
fn keyword_commands_take_their_second_word() {
    assert_eq!(second_word(4, "BASEBPM 150 extra"), Ok("150".to_owned()));
    assert_eq!(second_word(4, "BASEBPM"), Err(SusError::MalformedCommand { line: 4 }));
    assert_eq!(attribute_name(5, "ATTRIBUTE 0a"), Ok("0a".to_owned()));
    assert_eq!(attribute_name(5, "ATTRIBUTE 0a 0b"), Err(SusError::MalformedCommand { line: 5 }));
}

#[test]
fn attribute_definitions_are_taken_apart() {
    assert_eq!(attribute_definition(2, "ATR0a: \"rh:1\" "), Ok(("0a".to_owned(), "\"rh:1\"".to_owned())));
    assert_eq!(attribute_definition(2, "ATR0ab: x"), Err(SusError::MalformedCommand { line: 2 }));
    assert_eq!(attribute_definition(2, "ATR0a x"), Err(SusError::MalformedCommand { line: 2 }));
}

#[test]
fn definitions_are_told_apart_by_header() {
    assert_eq!(definition_kind(1, "BPM01", "120"), Ok(DefinitionKind::Tempo("01".to_owned())));
    assert_eq!(definition_kind(1, "BPM01", ""), Err(SusError::MalformedCommand { line: 1 }));
    assert_eq!(definition_kind(1, "BPM1", "120"), Err(SusError::MalformedCommand { line: 1 }));
    assert_eq!(definition_kind(1, "TIL01", "\"0'0:1\""), Ok(DefinitionKind::SpeedGroup(1)));
    assert_eq!(definition_kind(1, "TIL00x", ""), Err(SusError::MalformedCommand { line: 1 }));
    assert_eq!(definition_kind(1, "00110", "11"), Ok(DefinitionKind::Data));
    assert_eq!(definition_kind(1, "WAVE", "x"), Ok(DefinitionKind::Ignored));
}

#[test]
fn default_tempo_values_lose_keyword_and_quotes() {
    assert_eq!(bpm_default_value("BPM_DEF \"120\""), "120");
    assert_eq!(bpm_default_value("BPM_DEFBPM_DEF  90 "), "90");
}

#[test]
fn measure_lengths_are_written_without_trailing_zeros() {
    for (n, d) in [(1, 2), (3, 8), (7, 4), (1, 1024), (21, 20)] {
        let text = format_position(Position::new(n, d).unwrap()).unwrap();
        assert!(!text.ends_with('0'), "{text}");
    }
}

#[test]
fn measure_length_changes_are_written_as_lines() {
    let lengths = vec![(0, Position::new(3, 1).unwrap()), (1200, Position::new(7, 2).unwrap())];
    assert_eq!(measure_length_lines(&lengths).unwrap(), "#00002: 3\n#120002: 3.5\n");
    let thirds = vec![(0, Position::new(1, 3).unwrap())];
    assert_eq!(measure_length_lines(&thirds), Err(SusError::UnrepresentablePosition));
}
