use chart_converter::air_parent::StandardParent;
use chart_converter::c2s::C2sError;
use chart_converter::c2s_notes::{
    c2s_document, c2s_note_line, crush_line, speed_group_line, C2sLine, C2sNote, C2sParent,
};
use chart_converter::chart::ChartMode;
use chart_converter::note::{
    AirColor, AirCrushColor, AirCrushInterval, AirDirection, ExDirection, Lane, SideButton, SlidePoint, SlidePointKind,
    TapKind,
};
use chart_converter::position::Position;

fn beat(n: u64) -> Position {
    Position::new(n, 1).unwrap()
}

fn line(note: C2sNote) -> Result<String, C2sError> {
    c2s_note_line(beat(5), Lane::slider(2, 3).unwrap(), ChartMode::Normal, &note)
}

fn unsupported(record: &str) -> Result<String, C2sError> {
    Err(C2sError::UnsupportedRecord { line: 0, record: record.to_owned() })
}

#[test]
fn writes_c2s_short_note_records() {
    assert_eq!(line(C2sNote::Tap(TapKind::Tap)), Ok("TAP\t1\t96\t2\t3".to_owned()));
    assert_eq!(line(C2sNote::Tap(TapKind::XTap)), Ok("CHR\t1\t96\t2\t3\tUP".to_owned()));
    assert_eq!(line(C2sNote::Tap(TapKind::Flick { direction: None })), Ok("FLK\t1\t96\t2\t3".to_owned()));
    assert_eq!(line(C2sNote::ExTap(ExDirection::Down)), Ok("CHR\t1\t96\t2\t3\tDW".to_owned()));
    assert_eq!(line(C2sNote::Mine), Ok("MNE\t1\t96\t2\t3".to_owned()));
}

#[test]
fn rejects_c2s_notes_it_cannot_write() {
    assert_eq!(
        line(C2sNote::Tap(TapKind::Flick { direction: Some(ExDirection::Left) })),
        unsupported("directional Flick cannot be represented by C2S")
    );
    assert_eq!(line(C2sNote::Tap(TapKind::Tap6)), unsupported("SUS tap variant cannot be represented by C2S"));
    assert_eq!(line(C2sNote::ExTap(ExDirection::LowerLeft)), unsupported("diagonal Ex direction"));
    assert_eq!(
        c2s_note_line(beat(1), Lane::Side(SideButton::LeftUpper), ChartMode::Normal, &C2sNote::Mine),
        unsupported("side lane cannot be represented by C2S")
    );
    assert_eq!(
        c2s_note_line(Position::new(1, 7).unwrap(), Lane::slider(0, 1).unwrap(), ChartMode::Normal, &C2sNote::Mine),
        Err(C2sError::UnrepresentablePosition)
    );
}

#[test]
fn writes_c2s_holds_with_their_duration() {
    assert_eq!(line(C2sNote::Hold(beat(7))), Ok("HLD\t1\t96\t2\t3\t192".to_owned()));
    assert_eq!(line(C2sNote::ExHold(beat(6), ExDirection::Center)), Ok("HXD\t1\t96\t2\t3\t96\tCE".to_owned()));
    assert_eq!(
        c2s_note_line(beat(5), Lane::slider(2, 3).unwrap(), ChartMode::Xlair, &C2sNote::ExHold(beat(6), ExDirection::Center)),
        Ok("HLD\t1\t96\t2\t3\t96".to_owned())
    );
    assert_eq!(line(C2sNote::Hold(beat(4))), Err(C2sError::UnrepresentablePosition));
}

#[test]
fn writes_c2s_slides_a_record_per_segment() {
    let points = vec![
        SlidePoint::new(beat(5), Lane::slider(2, 3).unwrap()),
        SlidePoint::new(beat(6), Lane::slider(4, 2).unwrap()).with_kind(SlidePointKind::Control),
        SlidePoint::new(beat(8), Lane::slider(0, 1).unwrap()),
    ];
    assert_eq!(
        line(C2sNote::Slide(points.clone())),
        Ok("SLC\t1\t96\t2\t3\t96\t4\t2\nSLD\t1\t192\t4\t2\t192\t0\t1".to_owned())
    );
    assert_eq!(
        line(C2sNote::ExSlide(points, ExDirection::Up)),
        Ok("SXC\t1\t96\t2\t3\t96\t4\t2\tUP\nSXD\t1\t192\t4\t2\t192\t0\t1\tUP".to_owned())
    );
    let side = vec![
        SlidePoint::new(beat(5), Lane::slider(2, 3).unwrap()),
        SlidePoint::new(beat(6), Lane::Side(SideButton::RightUpper)),
    ];
    assert_eq!(line(C2sNote::Slide(side)), unsupported("side lane cannot be represented by C2S"));
}

#[test]
fn writes_c2s_air_records_naming_their_parent() {
    let tap = C2sParent::Kind(StandardParent::Tap);
    assert_eq!(
        line(C2sNote::Air(Some(AirDirection::UpperLeft), AirColor::Inverted, tap)),
        Ok("AUL\t1\t96\t2\t3\tTAP\tPPL".to_owned())
    );
    assert_eq!(
        line(C2sNote::AirHold(beat(6), AirColor::Normal, C2sParent::Kind(StandardParent::Hold))),
        Ok("AHD\t1\t96\t2\t3\tHLD\t96\tDEF".to_owned())
    );
    assert_eq!(line(C2sNote::Air(None, AirColor::Normal, tap)), unsupported("AIR direction is missing"));
    assert_eq!(
        line(C2sNote::Air(Some(AirDirection::Up), AirColor::Normal, C2sParent::Unsupported)),
        unsupported("unsupported AIR parent")
    );
    assert_eq!(
        line(C2sNote::AirHold(beat(6), AirColor::Normal, C2sParent::Missing)),
        Err(C2sError::InvalidValue { line: 0, value: "invalid note parent".to_owned() })
    );
    assert_eq!(
        c2s_note_line(beat(5), Lane::slider(2, 3).unwrap(), ChartMode::Xlair, &C2sNote::Air(Some(AirDirection::Up), AirColor::Normal, tap)),
        unsupported("AIR notation in XLAIR mode")
    );
}

#[test]
fn air_crush_records_give_interval_duration_and_heights() {
    let start = Position::new(1, 1).unwrap();
    let end = Position::new(3, 1).unwrap();
    let lane = Lane::Slider { start: 2, width: 4 };
    let end_lane = Lane::Slider { start: 6, width: 2 };
    let every = AirCrushInterval::Every(Position::new(1, 2).unwrap());
    assert_eq!(
        crush_line(start, lane, every, "1.000000", end, end_lane, "2.500000", AirCrushColor::Red).unwrap(),
        "ALD\t0\t96\t2\t4\t48\t1.000000\t192\t6\t2\t2.500000\tRED"
    );
    assert_eq!(
        crush_line(start, lane, AirCrushInterval::Trace, "1.000000", end, end_lane, "1.000000", AirCrushColor::Red)
            .unwrap(),
        "ALD\t0\t96\t2\t4\t0\t1.000000\t192\t6\t2\t1.000000\tRED"
    );
    assert_eq!(
        crush_line(start, lane, AirCrushInterval::Start, "1.000000", end, end_lane, "1.000000", AirCrushColor::Red)
            .unwrap(),
        "ALD\t0\t96\t2\t4\t9600\t1.000000\t192\t6\t2\t1.000000\tRED"
    );
    assert_eq!(
        crush_line(start, Lane::Side(SideButton::LeftUpper), every, "1", end, end_lane, "1", AirCrushColor::Red),
        Err(C2sError::UnsupportedRecord { line: 0, record: "side lane cannot be represented by C2S".to_owned() })
    );
    assert_eq!(
        crush_line(end, lane, every, "1", start, end_lane, "1", AirCrushColor::Red),
        Err(C2sError::UnrepresentablePosition)
    );
}

#[test]
fn speed_group_records_name_the_group() {
    assert_eq!(speed_group_line(1, 0, 3, 2, 96, 4), "SLA\t1\t0\t3\t2\t96\t4");
}

#[test]
fn c2s_documents_sort_records_by_time_then_order() {
    let line = |measure: u32, tick: u64, order: u64, text: &str| C2sLine { measure, tick, order, text: text.to_owned() };
    let lines = vec![
        line(1, 0, 0, "TAP\t1\t0\t0\t4"),
        line(0, 96, 2, "TAP\t0\t96\t4\t4"),
        line(0, 96, 1, "BPM\t0\t96\t150.000"),
        line(0, 0, 3, "MET\t0\t0\t4\t4"),
    ];
    assert_eq!(
        c2s_document(&lines),
        "RESOLUTION\t384\nMET\t0\t0\t4\t4\nBPM\t0\t96\t150.000\nTAP\t0\t96\t4\t4\nTAP\t1\t0\t0\t4\n"
    );
}
