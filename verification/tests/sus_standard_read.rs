use chart_converter::chart::ChartMode;
use chart_converter::error::ChartError;
use chart_converter::note::{AirDirection, ExDirection, Lane, TapKind};
use chart_converter::position::Position;
use chart_converter::sus::SusError;
use chart_converter::sus_standard_read::{
    is_standard_note, read_standard_note, slide_ending_at, StandardRead, StandardReadError, StandardReadNote,
};
use chart_converter::timeline::MeasureTimeline;

fn beat(n: u64) -> Position {
    Position::new(n, 1).unwrap()
}

fn read_in(mode: ChartMode, header: &str, data: &str) -> Result<StandardRead, StandardReadError> {
    let timeline = MeasureTimeline::new(beat(4));
    read_standard_note(3, 0, 4, &timeline, mode, header, data, true)
}

fn read(header: &str, data: &str) -> Result<StandardRead, StandardReadError> {
    read_in(ChartMode::Normal, header, data)
}

fn note(position: Position, lane: Lane, note: StandardReadNote) -> Result<StandardRead, StandardReadError> {
    Ok(StandardRead::Note(position, lane, note))
}

fn invalid(value: &str) -> Result<StandardRead, StandardReadError> {
    Err(StandardReadError::Sus(SusError::InvalidValue { line: 3, value: value.to_owned() }))
}

#[test]
fn tells_standard_note_lines() {
    assert!(is_standard_note("00004", "010406"));
    assert!(is_standard_note("0a004", "0804060004HLD"));
    assert!(is_standard_note("00004", "0801"));
    assert!(!is_standard_note("00008", "010406"));
    assert!(!is_standard_note("0000g", "010406"));
    assert!(!is_standard_note("0004", "010406"));
    assert!(!is_standard_note("00004", "0104"));
    assert!(!is_standard_note("00004", "040406"));
    assert!(!is_standard_note("00004", "01040"));
}

#[test]
fn reads_standard_short_notes() {
    let lane = Lane::slider(2, 3).unwrap();
    assert_eq!(read("00004", "010406"), note(beat(1), lane, StandardReadNote::Tap(TapKind::Tap)));
    assert_eq!(read("01008", "010406"), note(beat(6), lane, StandardReadNote::Tap(TapKind::Tap)));
    assert_eq!(read("00004", "020406"), note(beat(1), lane, StandardReadNote::ExTap(ExDirection::Up)));
    assert_eq!(
        read_in(ChartMode::Xlair, "00004", "020406"),
        note(beat(1), lane, StandardReadNote::Tap(TapKind::XTap))
    );
    assert_eq!(
        read("00004", "030406"),
        note(beat(1), lane, StandardReadNote::Tap(TapKind::Flick { direction: None }))
    );
    assert_eq!(read("00004", "100400"), note(beat(1), Lane::slider(2, 1).unwrap(), StandardReadNote::Mine));
    assert_eq!(
        read_in(ChartMode::Xlair, "00004", "100406"),
        Ok(StandardRead::Dropped("damage note in XLAIR mode".to_owned()))
    );
}

#[test]
fn reads_standard_long_notes() {
    let lane = Lane::slider(2, 3).unwrap();
    assert_eq!(read("00004", "0504060004"), note(beat(1), lane, StandardReadNote::Hold(beat(2))));
    assert_eq!(
        read("00004", "06040600080804"),
        note(beat(1), lane, StandardReadNote::Slide(beat(3), Lane::slider(4, 2).unwrap()))
    );
    assert_eq!(read("00004", "050406"), invalid("050406"));
    assert_eq!(read("00004", "0604060008"), invalid("0604060008"));
}

#[test]
fn reads_standard_air_notes_with_their_parent_names() {
    let lane = Lane::slider(2, 3).unwrap();
    assert_eq!(
        read("00004", "070406TAP"),
        note(beat(1), lane, StandardReadNote::Air(AirDirection::Up, Some("TAP".to_owned())))
    );
    assert_eq!(read("00004", "090406"), note(beat(1), lane, StandardReadNote::Air(AirDirection::Down, None)));
    assert_eq!(
        read("00004", "0804060004HLD"),
        note(beat(1), lane, StandardReadNote::AirHold(beat(2), Some("HLD".to_owned())))
    );
    assert_eq!(
        read_in(ChartMode::Xlair, "00004", "070406"),
        Ok(StandardRead::Dropped("AIR notation in XLAIR mode".to_owned()))
    );
}

#[test]
fn reads_standard_tempo_changes() {
    let timeline = MeasureTimeline::new(beat(4));
    assert_eq!(
        read_standard_note(3, 0, 4, &timeline, ChartMode::Normal, "00004", "0801", true),
        Ok(StandardRead::Tempo(beat(1)))
    );
    assert_eq!(
        read_standard_note(3, 0, 4, &timeline, ChartMode::Normal, "00004", "0801", false),
        invalid("0801")
    );
}

#[test]
fn reports_standard_note_errors() {
    let timeline = MeasureTimeline::new(beat(4));
    assert_eq!(
        read_standard_note(3, u32::MAX, 4, &timeline, ChartMode::Normal, "01004", "010406", true),
        invalid("01")
    );
    assert_eq!(read("00004", "01040g"), invalid("01040g"));
    assert_eq!(
        read("00004", "012006"),
        Err(StandardReadError::Sus(SusError::Chart { line: 3, source: ChartError::InvalidSliderLane }))
    );
    assert_eq!(read("00004", "010€6"), Err(StandardReadError::OffBoundary(2, 4)));
    assert_eq!(
        read_standard_note(3, 0, 0, &timeline, ChartMode::Normal, "00004", "010406", true),
        Err(StandardReadError::Sus(SusError::Chart { line: 3, source: ChartError::InvalidPositionDenominator }))
    );
}

#[test]
fn finds_the_last_slide_ending_at_a_point() {
    let lane = Lane::slider(2, 3).unwrap();
    let other = Lane::slider(0, 1).unwrap();
    let ends = vec![Some((beat(1), lane)), None, Some((beat(1), other)), Some((beat(1), lane)), Some((beat(2), lane))];
    assert_eq!(slide_ending_at(&ends, beat(1), lane), Some(3));
    assert_eq!(slide_ending_at(&ends, beat(2), other), None);
}

#[test]
fn standard_tap_lines_read_back() {
    let timeline = MeasureTimeline::new(beat(4));
    let lane = Lane::slider(2, 3).unwrap();
    let lines = chart_converter::sus_standard::standard_note_lines(
        &timeline,
        4,
        16,
        0,
        beat(5),
        lane,
        &chart_converter::sus_standard::StandardNote::Tap(TapKind::Tap),
    )
    .unwrap();
    assert_eq!(lines, vec!["#01004: 010406".to_owned()]);
    let (header, data) = lines[0].trim_start_matches('#').split_once(": ").unwrap();
    assert!(is_standard_note(header, data));
    assert_eq!(
        read_standard_note(1, 0, 4, &timeline, ChartMode::Normal, header, data, false),
        note(beat(5), lane, StandardReadNote::Tap(TapKind::Tap))
    );
}
