use chart_converter::chart::ChartMode;
use chart_converter::sus::format_record;
use chart_converter::sus_data_lines::{read_data_line, read_token, ChannelKind, DataLine, TokenRead};
use chart_converter::note::{Lane, SideButton, SlidePoint, SlidePointKind, TapKind};
use chart_converter::position::Position;
use chart_converter::sus::SusError;
use chart_converter::sus_xlair::{xlair_note_records, XlairNote};
use chart_converter::timeline::MeasureTimeline;

fn beat(n: u64) -> Position {
    Position::new(n, 1).unwrap()
}

fn records(position: Position, lane: Lane, note: XlairNote) -> Result<Vec<(u32, u64, String, String)>, SusError> {
    let timeline = MeasureTimeline::new(beat(4));
    xlair_note_records(&timeline, 4, position, lane, '7', &note)
        .map(|records| records.into_iter().map(|r| (r.measure, r.tick, r.key, r.token)).collect())
}

fn record(measure: u32, tick: u64, key: &str, token: &str) -> (u32, u64, String, String) {
    (measure, tick, key.to_owned(), token.to_owned())
}

fn unsupported(note: &str) -> SusError {
    SusError::UnsupportedNote { note: note.to_owned() }
}

#[test]
fn xlair_taps_are_one_record() {
    let lane = Lane::slider(2, 3).unwrap();
    assert_eq!(records(beat(1), lane, XlairNote::Tap(TapKind::Tap)), Ok(vec![record(0, 4, "12", "13")]));
    assert_eq!(records(beat(5), lane, XlairNote::Tap(TapKind::XTap)), Ok(vec![record(1, 4, "12", "23")]));
    assert_eq!(
        records(beat(1), lane, XlairNote::Tap(TapKind::Flick { direction: None })),
        Ok(vec![record(0, 4, "12", "33")])
    );
    assert_eq!(records(beat(1), lane, XlairNote::ExTap), Ok(vec![record(0, 4, "12", "23")]));
    let side = Lane::Side(SideButton::RightLower);
    assert_eq!(records(beat(1), side, XlairNote::Tap(TapKind::Tap)), Ok(vec![record(0, 4, "5e", "61")]));
}

#[test]
fn xlair_rejects_what_it_cannot_write() {
    let lane = Lane::slider(2, 3).unwrap();
    let side = Lane::Side(SideButton::LeftUpper);
    assert_eq!(records(beat(1), lane, XlairNote::Tap(TapKind::Tap4)), Err(unsupported("SUS tap variant outside XLAIR")));
    assert_eq!(records(beat(1), side, XlairNote::Tap(TapKind::XTap)), Err(unsupported("side ExTap/Flick")));
    assert_eq!(records(beat(1), side, XlairNote::ExTap), Err(unsupported("ExTap")));
    assert_eq!(records(beat(1), lane, XlairNote::Mine), Err(unsupported("unsupported note kind")));
    let third = Position::new(1, 3).unwrap();
    assert_eq!(records(third, lane, XlairNote::Tap(TapKind::Tap)), Err(SusError::UnrepresentablePosition));
}

#[test]
fn xlair_holds_are_a_start_and_an_end() {
    let lane = Lane::slider(2, 3).unwrap();
    assert_eq!(
        records(beat(1), lane, XlairNote::Hold(beat(6))),
        Ok(vec![record(0, 4, "327", "13"), record(1, 8, "327", "23")])
    );
    assert_eq!(
        records(beat(1), Lane::Side(SideButton::LeftLower), XlairNote::Hold(beat(2))),
        Ok(vec![record(0, 4, "227", "11"), record(0, 8, "227", "21")])
    );
    let third = Position::new(1, 3).unwrap();
    assert_eq!(records(beat(1), lane, XlairNote::Hold(third)), Err(SusError::UnrepresentablePosition));
}

#[test]
fn xlair_slides_write_every_point() {
    let lane = Lane::slider(2, 3).unwrap();
    let points = vec![
        SlidePoint::new(beat(1), lane),
        SlidePoint::new(beat(2), Lane::slider(4, 2).unwrap()).with_kind(SlidePointKind::Control),
        SlidePoint::new(beat(3), Lane::slider(0, 1).unwrap()).with_kind(SlidePointKind::Invisible),
        SlidePoint::new(beat(4), Lane::slider(10, 6).unwrap()),
    ];
    assert_eq!(
        records(beat(1), lane, XlairNote::Slide(points)),
        Ok(vec![record(0, 4, "327", "13"), record(0, 8, "347", "42"), record(0, 12, "307", "51"), record(1, 0, "3a7", "26")])
    );
    let side = vec![SlidePoint::new(beat(1), lane), SlidePoint::new(beat(2), Lane::Side(SideButton::RightUpper))];
    assert_eq!(records(beat(1), lane, XlairNote::Slide(side)), Err(unsupported("slide")));
}

#[test]
fn xlair_tap_lines_read_back() {
    let timeline = MeasureTimeline::new(beat(4));
    let lane = Lane::slider(2, 3).unwrap();
    let records = xlair_note_records(&timeline, 4, beat(5), lane, '0', &XlairNote::Tap(TapKind::XTap)).unwrap();
    let record = &records[0];
    let line = format_record(&timeline, 4, record.measure, record.tick, &record.key, &record.token).unwrap();
    assert_eq!(line, "#00112: 00000000230000000000000000000000\n");
    let (header, data) = line.trim_end().trim_start_matches('#').split_once(": ").unwrap();
    match read_data_line(1, 0, &timeline, ChartMode::Xlair, header, data) {
        Ok(DataLine::Channel(ChannelKind::Short, 2, None, positions)) => {
            let tick = record.tick as usize;
            assert_eq!(positions[tick], beat(5));
            let token = &data.as_bytes()[2 * tick..2 * tick + 2];
            assert_eq!(
                read_token(1, ChartMode::Xlair, ChannelKind::Short, 2, token),
                Ok(TokenRead::Tap(TapKind::XTap, lane))
            );
        }
        other => panic!("unexpected data line {other:?}"),
    }
}
