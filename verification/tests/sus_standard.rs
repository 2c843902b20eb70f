use chart_converter::air_parent::StandardParent;
use chart_converter::note::{AirDirection, ExDirection, Lane, SideButton, SlidePoint, TapKind};
use chart_converter::position::Position;
use chart_converter::sus::SusError;
use chart_converter::sus_standard::{standard_note_lines, StandardNote};
use chart_converter::timeline::MeasureTimeline;

fn beat(n: u64) -> Position {
    Position::new(n, 1).unwrap()
}

fn lines(position: Position, lane: Lane, note: StandardNote) -> Result<Vec<String>, SusError> {
    let timeline = MeasureTimeline::new(beat(4));
    standard_note_lines(&timeline, 4, 16, 7, position, lane, &note)
}

#[test]
fn standard_short_notes_are_one_line() {
    let lane = Lane::slider(2, 3).unwrap();
    assert_eq!(lines(beat(1), lane, StandardNote::Tap(TapKind::Tap)), Ok(vec!["#00004: 010406".to_owned()]));
    assert_eq!(lines(beat(41), lane, StandardNote::Tap(TapKind::XTap)), Ok(vec!["#0A004: 020406".to_owned()]));
    assert_eq!(lines(beat(1), lane, StandardNote::Mine), Ok(vec!["#00004: 100406".to_owned()]));
    assert_eq!(lines(beat(1), lane, StandardNote::ExTap(ExDirection::Center)), Ok(vec!["#00004: 020406".to_owned()]));
    let channel = format!("#00012: {}43{}", "00".repeat(4), "00".repeat(11));
    assert_eq!(lines(beat(1), lane, StandardNote::Tap(TapKind::Tap4)), Ok(vec![channel]));
}

#[test]
fn standard_long_notes_carry_their_duration() {
    let lane = Lane::slider(2, 3).unwrap();
    assert_eq!(lines(beat(1), lane, StandardNote::Hold(beat(2))), Ok(vec!["#00004: 0504060004".to_owned()]));
    let points = vec![SlidePoint::new(beat(1), lane), SlidePoint::new(beat(3), Lane::slider(4, 2).unwrap())];
    assert_eq!(lines(beat(1), lane, StandardNote::Slide(points)), Ok(vec!["#00004: 06040600080804".to_owned()]));
    assert_eq!(lines(beat(1), lane, StandardNote::Hold(beat(1))), Err(SusError::UnrepresentablePosition));
}

#[test]
fn standard_air_names_its_parent() {
    let lane = Lane::slider(2, 3).unwrap();
    assert_eq!(
        lines(beat(1), lane, StandardNote::Air(Some(AirDirection::Up), Some(StandardParent::Tap))),
        Ok(vec!["#00004: 070406TAP".to_owned()])
    );
    assert_eq!(
        lines(beat(1), lane, StandardNote::AirHold(beat(2), Some(StandardParent::Hold))),
        Ok(vec!["#00004: 0804060004HLD".to_owned()])
    );
    assert_eq!(
        lines(beat(1), lane, StandardNote::Air(Some(AirDirection::Down), None)),
        Err(SusError::InvalidValue { line: 0, value: "invalid AIR parent for note 7".to_owned() })
    );
    assert_eq!(
        lines(beat(1), lane, StandardNote::Air(None, Some(StandardParent::Tap))),
        Err(SusError::UnsupportedNote { note: "standard SUS AIR direction".to_owned() })
    );
    assert_eq!(
        lines(beat(1), lane, StandardNote::AirPath),
        Err(SusError::UnsupportedNote { note: "standard SUS AIR slide or crush".to_owned() })
    );
    assert_eq!(
        lines(beat(1), Lane::Side(SideButton::LeftUpper), StandardNote::Mine),
        Err(SusError::UnsupportedNote { note: "side lane in standard SUS".to_owned() })
    );
}
