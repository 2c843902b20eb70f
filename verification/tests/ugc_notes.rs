use chart_converter::chart::ChartMode;
use chart_converter::note::{ExDirection, Lane, SideButton, SlidePoint, SlidePointKind, TapKind};
use chart_converter::position::Position;
use chart_converter::ugc::UgcError;
use chart_converter::ugc_notes::{ugc_note_lines, UgcNote};

fn at(numerator: u64, denominator: u64) -> Position {
    Position::new(numerator, denominator).unwrap()
}

fn point(position: Position, start: u8, width: u8) -> SlidePoint {
    SlidePoint::new(position, Lane::slider(start, width).unwrap())
}

fn unsupported(note: &str) -> Result<String, UgcError> {
    Err(UgcError::UnsupportedNote { note: note.to_owned() })
}

#[test]
fn writes_tap_records_with_their_lane_codes() {
    let start = at(1, 1);
    let normal = ChartMode::Normal;
    assert_eq!(ugc_note_lines("#1'0:", start, 4, 10, false, normal, &UgcNote::Tap(TapKind::Tap)), Ok("#1'0:t4a\n".to_owned()));
    assert_eq!(ugc_note_lines("#1'0:", start, 0, 4, false, normal, &UgcNote::Tap(TapKind::XTap)), Ok("#1'0:x04\n".to_owned()));
    assert_eq!(
        ugc_note_lines("#1'0:", start, 2, 2, false, normal, &UgcNote::Tap(TapKind::Flick { direction: Some(ExDirection::Left) })),
        Ok("#1'0:f22L\n".to_owned())
    );
    assert_eq!(
        ugc_note_lines("#1'0:", start, 2, 2, false, normal, &UgcNote::Tap(TapKind::Flick { direction: None })),
        Ok("#1'0:f22\n".to_owned())
    );
    assert_eq!(ugc_note_lines("#1'0:", start, 3, 1, false, normal, &UgcNote::Mine), Ok("#1'0:d31\n".to_owned()));
}

#[test]
fn rejects_notes_that_ugc_cannot_write() {
    let start = at(1, 1);
    let normal = ChartMode::Normal;
    assert_eq!(ugc_note_lines("", start, 0, 1, false, normal, &UgcNote::Tap(TapKind::Tap5)), unsupported("SUS tap variant"));
    assert_eq!(
        ugc_note_lines("", start, 0, 1, false, normal, &UgcNote::Tap(TapKind::Flick { direction: Some(ExDirection::Up) })),
        unsupported("unsupported Flick direction")
    );
    assert_eq!(
        ugc_note_lines("", start, 0, 1, false, normal, &UgcNote::ExTap(ExDirection::UpperLeft)),
        unsupported("diagonal Ex direction")
    );
    assert_eq!(ugc_note_lines("", start, 0, 1, false, normal, &UgcNote::AirCrush), unsupported("AIR Crush"));
}

#[test]
fn writes_ex_taps_by_mode() {
    let start = at(1, 1);
    assert_eq!(
        ugc_note_lines("#0'0:", start, 1, 2, false, ChartMode::Normal, &UgcNote::ExTap(ExDirection::Up)),
        Ok("#0'0:x12U\n".to_owned())
    );
    assert_eq!(
        ugc_note_lines("#0'0:", start, 1, 2, false, ChartMode::Xlair, &UgcNote::ExTap(ExDirection::UpperLeft)),
        Ok("#0'0:x12\n".to_owned())
    );
}

#[test]
fn writes_holds_with_their_end_offset() {
    let start = at(1, 1);
    assert_eq!(
        ugc_note_lines("#1'0:", start, 4, 2, false, ChartMode::Normal, &UgcNote::Hold(at(3, 2))),
        Ok("#1'0:h42\n#240>s42\n".to_owned())
    );
    assert_eq!(
        ugc_note_lines("#1'0:", start, 4, 2, false, ChartMode::Normal, &UgcNote::Hold(at(1, 2))),
        Err(UgcError::UnrepresentablePosition)
    );
    assert_eq!(
        ugc_note_lines("#1'0:", start, 4, 2, true, ChartMode::Normal, &UgcNote::ExHold(at(2, 1), ExDirection::Down)),
        Ok("#1'0:x42D\n#1'0:h42\n#480>s42\n".to_owned())
    );
    assert_eq!(
        ugc_note_lines("#1'0:", start, 4, 2, false, ChartMode::Normal, &UgcNote::ExHold(at(2, 1), ExDirection::Down)),
        Ok("#1'0:h42\n#480>s42\n".to_owned())
    );
    assert_eq!(
        ugc_note_lines("#1'0:", start, 4, 2, true, ChartMode::Normal, &UgcNote::ExHold(at(2, 1), ExDirection::LowerRight)),
        unsupported("diagonal Ex direction")
    );
}

#[test]
fn writes_slides_with_a_follower_line_per_point() {
    let start = at(1, 1);
    let points = vec![
        point(start, 0, 4),
        point(at(5, 4), 2, 4).with_kind(SlidePointKind::Control),
        point(at(3, 2), 12, 4),
    ];
    assert_eq!(
        ugc_note_lines("#1'0:", start, 0, 4, false, ChartMode::Normal, &UgcNote::Slide(points.clone())),
        Ok("#1'0:s04\n#120>c24\n#240>sc4\n".to_owned())
    );
    assert_eq!(
        ugc_note_lines("#1'0:", start, 0, 4, true, ChartMode::Normal, &UgcNote::ExSlide(points, ExDirection::Center)),
        Ok("#1'0:x04C\n#1'0:s04\n#120>c24\n#240>sc4\n".to_owned())
    );
}

#[test]
fn rejects_slides_with_points_that_ugc_cannot_write() {
    let start = at(1, 1);
    let side = vec![point(start, 0, 4), SlidePoint::new(at(2, 1), Lane::Side(SideButton::RightLower))];
    assert_eq!(
        ugc_note_lines("", start, 0, 4, false, ChartMode::Normal, &UgcNote::Slide(side)),
        unsupported("side lane")
    );
    let hidden = vec![point(start, 0, 4), point(at(2, 1), 0, 4).with_kind(SlidePointKind::Invisible)];
    assert_eq!(
        ugc_note_lines("", start, 0, 4, false, ChartMode::Normal, &UgcNote::Slide(hidden)),
        unsupported("invisible slide point")
    );
    let early = vec![point(start, 0, 4), point(at(1, 2), 0, 4)];
    assert_eq!(
        ugc_note_lines("", start, 0, 4, false, ChartMode::Normal, &UgcNote::Slide(early)),
        Err(UgcError::UnrepresentablePosition)
    );
}
