use chart_converter::chart::ChartMode;
use chart_converter::error::ChartError;
use chart_converter::note::{ExDirection, Lane, SideButton, TapKind};
use chart_converter::position::Position;
use chart_converter::sus::SusError;
use chart_converter::sus_data_lines::{
    first_replaced_tap, read_data_line, read_token, tap_hidden, ChannelKind, DataLine, DataLineFault, TokenRead,
};
use chart_converter::timeline::MeasureTimeline;

fn beat(n: u64) -> Position {
    Position::new(n, 1).unwrap()
}

fn line(header: &str, data: &str) -> Result<DataLine, DataLineFault> {
    read_data_line(9, 0, &MeasureTimeline::new(beat(4)), ChartMode::Normal, header, data)
}

fn invalid(value: &str) -> SusError {
    SusError::InvalidValue { line: 9, value: value.to_owned() }
}

fn lane(start: u8, width: u8) -> Lane {
    Lane::slider(start, width).unwrap()
}

#[test]
fn reads_data_line_headers() {
    assert_eq!(line("00002", "3.5"), Ok(DataLine::MeasureLength(0, Position::new(7, 2).unwrap())));
    assert_eq!(line("00108", "0101"), Ok(DataLine::Tempo(1)));
    assert_eq!(line("00110", "1400"), Ok(DataLine::Channel(ChannelKind::Short, 0, None, vec![beat(4), beat(6)])));
    assert_eq!(line("0013ab", "13"), Ok(DataLine::Channel(ChannelKind::Slider, 10, Some('b'), vec![beat(4)])));
    assert_eq!(line("0012a1", "13"), Ok(DataLine::Channel(ChannelKind::CentralHold, 10, Some('1'), vec![beat(4)])));
    assert_eq!(
        read_data_line(9, 0, &MeasureTimeline::new(beat(4)), ChartMode::Xlair, "0012a1", "13"),
        Ok(DataLine::Channel(ChannelKind::SideLong, 10, Some('1'), vec![beat(4)]))
    );
    assert_eq!(line("00151", "1300"), Ok(DataLine::Channel(ChannelKind::Directional, 1, None, vec![beat(4), beat(6)])));
}

#[test]
fn reports_data_line_errors() {
    assert_eq!(line("00002", "x"), Err(DataLineFault::Sus(invalid("x"))));
    assert_eq!(
        line("0019", "13"),
        Err(DataLineFault::Sus(SusError::UnsupportedCommand { line: 9, command: "#0019: 13".to_owned() }))
    );
    assert_eq!(
        line("00160", "13"),
        Err(DataLineFault::Sus(SusError::UnsupportedCommand { line: 9, command: "#00160: 13".to_owned() }))
    );
    assert_eq!(line("0011!", "13"), Err(DataLineFault::Sus(invalid("!"))));
    assert_eq!(line("00110", "130"), Err(DataLineFault::Sus(invalid("130"))));
    assert_eq!(
        read_data_line(9, u32::MAX, &MeasureTimeline::new(beat(4)), ChartMode::Normal, "00110", "13"),
        Err(DataLineFault::Sus(invalid("001")))
    );
    assert_eq!(line("00122", "13"), Err(DataLineFault::NoChannel));
    assert_eq!(line("001é", "13"), Err(DataLineFault::NoLaneDigit));
}

#[test]
fn reads_short_and_directional_tokens() {
    let normal = ChartMode::Normal;
    let xlair = ChartMode::Xlair;
    assert_eq!(read_token(9, normal, ChannelKind::Short, 2, b"00"), Ok(TokenRead::Skip));
    assert_eq!(read_token(9, normal, ChannelKind::Short, 2, b"13"), Ok(TokenRead::Tap(TapKind::Tap, lane(2, 3))));
    assert_eq!(read_token(9, normal, ChannelKind::Short, 2, b"43"), Ok(TokenRead::Tap(TapKind::Tap4, lane(2, 3))));
    assert_eq!(
        read_token(9, xlair, ChannelKind::Short, 2, b"43"),
        Ok(TokenRead::Dropped("unsupported tap variant in XLAIR mode"))
    );
    assert_eq!(read_token(9, normal, ChannelKind::Short, 2, b"73"), Err(invalid("73")));
    assert_eq!(read_token(9, normal, ChannelKind::Short, 2, b"1!"), Err(invalid("!")));
    assert_eq!(
        read_token(9, normal, ChannelKind::Short, 2, b"1z"),
        Err(SusError::Chart { line: 9, source: ChartError::InvalidSliderLane })
    );
    assert_eq!(
        read_token(9, normal, ChannelKind::Directional, 2, b"23"),
        Ok(TokenRead::ExTap(ExDirection::Down, lane(2, 3)))
    );
    assert_eq!(
        read_token(9, xlair, ChannelKind::Directional, 2, b"13"),
        Ok(TokenRead::Dropped("non-side AIR direction in XLAIR mode"))
    );
    assert_eq!(
        read_token(9, xlair, ChannelKind::Directional, 12, b"62"),
        Ok(TokenRead::SideTap(SideButton::RightLower, lane(12, 2)))
    );
}

#[test]
fn reads_long_note_tokens() {
    let normal = ChartMode::Normal;
    let xlair = ChartMode::Xlair;
    assert_eq!(
        read_token(9, xlair, ChannelKind::SideLong, 2, b"1x"),
        Ok(TokenRead::Open(Lane::Side(SideButton::LeftLower)))
    );
    assert_eq!(read_token(9, xlair, ChannelKind::SideLong, 2, b"20"), Ok(TokenRead::Close));
    assert_eq!(read_token(9, xlair, ChannelKind::SideLong, 2, b"30"), Ok(TokenRead::Relay));
    assert_eq!(read_token(9, xlair, ChannelKind::SideLong, 6, b"10"), Err(invalid("6")));
    assert_eq!(read_token(9, xlair, ChannelKind::SideLong, 2, b"40"), Err(invalid("40")));
    assert_eq!(read_token(9, normal, ChannelKind::CentralHold, 2, b"13"), Ok(TokenRead::Open(lane(2, 3))));
    assert_eq!(read_token(9, normal, ChannelKind::CentralHold, 2, b"23"), Ok(TokenRead::Close));
    assert_eq!(read_token(9, normal, ChannelKind::CentralHold, 2, b"43"), Err(invalid("43")));
    assert_eq!(read_token(9, normal, ChannelKind::Slider, 2, b"53"), Ok(TokenRead::Slide(lane(2, 3), b'5')));
    assert_eq!(read_token(9, normal, ChannelKind::Slider, 2, b"63"), Err(invalid("63")));
}

#[test]
fn side_taps_hide_overlapping_central_taps_at_their_position() {
    let at = Position::new(2, 1).unwrap();
    let regions = vec![(at, Lane::Slider { start: 0, width: 4 })];
    assert!(tap_hidden(&regions, at, Lane::Slider { start: 3, width: 2 }));
    assert!(!tap_hidden(&regions, at, Lane::Slider { start: 4, width: 2 }));
    assert!(!tap_hidden(&regions, Position::new(3, 1).unwrap(), Lane::Slider { start: 0, width: 4 }));
}

#[test]
fn side_taps_replace_the_first_overlapping_tap() {
    let at = Position::new(2, 1).unwrap();
    let notes = vec![
        (at, Lane::Slider { start: 0, width: 2 }, false),
        (at, Lane::Slider { start: 8, width: 2 }, true),
        (at, Lane::Slider { start: 1, width: 2 }, true),
        (at, Lane::Slider { start: 0, width: 2 }, true),
    ];
    assert_eq!(first_replaced_tap(&notes, at, Lane::Slider { start: 0, width: 4 }), Some(2));
    assert_eq!(first_replaced_tap(&notes, at, Lane::Slider { start: 12, width: 4 }), None);
}
