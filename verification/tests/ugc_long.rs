use chart_converter::chart::ChartMode;
use chart_converter::error::ChartError;
use chart_converter::note::{Lane, SideButton, SlidePoint, SlidePointKind};
use chart_converter::position::Position;
use chart_converter::ugc::UgcError;
use chart_converter::ugc_long::{
    crush_points, finish_long_note, long_note_points, read_crush_attributes, read_followers, read_long_follower, AirHeight,
    FollowerFault, FollowerKind, LongFollower, LongNoteShape,
};
use chart_converter::note::{AirCrushColor, AirCrushInterval};

fn beat(n: u64) -> Position {
    Position::new(n, 1).unwrap()
}

fn follow(kind: FollowerKind, offset: u64, data: &str) -> Result<LongFollower, FollowerFault> {
    read_long_follower(7, kind, beat(1), 480, offset, data)
}

fn lane(start: u8, width: u8) -> Lane {
    Lane::slider(start, width).unwrap()
}

#[test]
fn reads_hold_and_slide_followers() {
    assert_eq!(follow(FollowerKind::Hold, 480, "s"), Ok(LongFollower::OnStartLane(beat(2))));
    assert_eq!(follow(FollowerKind::Hold, 960, "c"), Ok(LongFollower::OnStartLane(beat(3))));
    assert_eq!(
        follow(FollowerKind::Slide, 240, "c4a"),
        Ok(LongFollower::Point(Position::new(3, 2).unwrap(), lane(4, 10), SlidePointKind::Control, None))
    );
    assert_eq!(
        follow(FollowerKind::AirSlide, 480, "s2205"),
        Ok(LongFollower::Point(beat(2), lane(2, 2), SlidePointKind::Visible, Some(AirHeight { code: 5, single_digit: false })))
    );
    assert_eq!(
        follow(FollowerKind::Crush, 480, "c220a"),
        Ok(LongFollower::Point(beat(2), lane(2, 2), SlidePointKind::Control, Some(AirHeight { code: 10, single_digit: false })))
    );
    assert_eq!(follow(FollowerKind::Crush, 480, "s"), Ok(LongFollower::OnStartLane(beat(2))));
}

#[test]
fn reports_follower_errors() {
    assert_eq!(follow(FollowerKind::Slide, 480, "s"), Err(FollowerFault::Ugc(UgcError::MalformedRecord { line: 7 })));
    assert_eq!(follow(FollowerKind::Crush, 480, "s22"), Err(FollowerFault::Ugc(UgcError::MalformedRecord { line: 7 })));
    assert_eq!(
        follow(FollowerKind::Slide, 480, "x22"),
        Err(FollowerFault::Ugc(UgcError::UnsupportedRecord { line: 7, record: "x".to_owned() }))
    );
    assert_eq!(
        follow(FollowerKind::Slide, 480, "s2!"),
        Err(FollowerFault::Ugc(UgcError::InvalidValue { line: 7, value: "!".to_owned() }))
    );
    assert_eq!(
        follow(FollowerKind::Slide, 480, "sg1"),
        Err(FollowerFault::Ugc(UgcError::Chart { line: 7, source: ChartError::InvalidSliderLane }))
    );
    assert_eq!(follow(FollowerKind::Slide, 480, "s2é"), Err(FollowerFault::OffBoundary(1, 3)));
    assert_eq!(
        read_long_follower(7, FollowerKind::Hold, beat(1), 0, 480, "s"),
        Err(FollowerFault::Ugc(UgcError::Chart { line: 7, source: ChartError::InvalidPositionDenominator }))
    );
}

#[test]
fn finishes_holds_and_slides() {
    let start = SlidePoint::new(beat(1), lane(2, 2));
    let end = SlidePoint::new(beat(2), lane(2, 2));
    assert_eq!(
        finish_long_note(3, true, ChartMode::Normal, vec![start, end]),
        Ok(LongNoteShape::Hold(lane(2, 2), beat(2)))
    );
    assert_eq!(
        finish_long_note(3, true, ChartMode::Xlair, vec![start, end]),
        Ok(LongNoteShape::Hold(Lane::Side(SideButton::LeftLower), beat(2)))
    );
    let moved = SlidePoint::new(beat(2), lane(4, 2));
    assert_eq!(
        finish_long_note(3, true, ChartMode::Normal, vec![start, moved]),
        Err(UgcError::UnsupportedRecord { line: 3, record: "variable hold lane".to_owned() })
    );
    assert_eq!(
        finish_long_note(3, false, ChartMode::Normal, vec![start, moved]),
        Ok(LongNoteShape::Slide(vec![start, moved]))
    );
    assert_eq!(finish_long_note(3, false, ChartMode::Normal, vec![start]), Err(UgcError::MissingFollower { line: 3 }));
}

fn lines(texts: &[&str]) -> Vec<String> {
    texts.iter().map(|text| (*text).to_owned()).collect()
}

#[test]
fn reads_the_followers_of_a_long_note() {
    let document = lines(&["#1'0:s22", "#240>c44", "", "' note", "@USETIL\t1", "#480>s66", "#2'0:t22"]);
    let scan = read_followers(FollowerKind::Slide, beat(1), 480, &document, 1);
    assert_eq!(scan.end, 6);
    assert_eq!(scan.directives, vec![4]);
    assert_eq!(
        scan.points,
        vec![
            LongFollower::Point(Position::new(3, 2).unwrap(), lane(4, 4), SlidePointKind::Control, None),
            LongFollower::Point(beat(2), lane(6, 6), SlidePointKind::Visible, None),
        ]
    );
    assert_eq!(scan.stop, None);
    assert_eq!(
        long_note_points(SlidePoint::new(beat(1), lane(2, 2)), &scan.points),
        vec![
            SlidePoint::new(beat(1), lane(2, 2)),
            SlidePoint::new(Position::new(3, 2).unwrap(), lane(4, 4)).with_kind(SlidePointKind::Control),
            SlidePoint::new(beat(2), lane(6, 6)),
        ]
    );
}

#[test]
fn stops_at_a_follower_it_cannot_read() {
    let document = lines(&["#1'0:s22", "#240>x44", "#480>s66"]);
    let scan = read_followers(FollowerKind::Slide, beat(1), 480, &document, 1);
    assert_eq!(scan.end, 1);
    assert_eq!(scan.points, Vec::new());
    assert_eq!(
        scan.stop,
        Some(FollowerFault::Ugc(UgcError::UnsupportedRecord { line: 2, record: "x".to_owned() }))
    );
    let crush = lines(&["#1'0:C22", "", "#480>s"]);
    let scan = read_followers(FollowerKind::Crush, beat(1), 480, &crush, 1);
    assert_eq!((scan.end, scan.points.len(), scan.stop), (1, 0, None));
}

#[test]
fn reads_air_crush_attributes() {
    assert_eq!(
        read_crush_attributes(5, 480, "0a1,240"),
        Ok((AirCrushColor::Red, AirHeight { code: 10, single_digit: false }, AirCrushInterval::Every(Position::new(1, 2).unwrap())))
    );
    assert_eq!(
        read_crush_attributes(5, 480, "2Z"),
        Ok((AirCrushColor::Transparent, AirHeight { code: 2, single_digit: true }, AirCrushInterval::Start))
    );
    assert_eq!(
        read_crush_attributes(5, 480, "2Z,0"),
        Ok((AirCrushColor::Transparent, AirHeight { code: 2, single_digit: true }, AirCrushInterval::Trace))
    );
    assert_eq!(read_crush_attributes(5, 480, ",1"), Err(UgcError::MalformedRecord { line: 5 }));
    assert_eq!(
        read_crush_attributes(5, 480, "2?"),
        Err(UgcError::InvalidValue { line: 5, value: "?".to_owned() })
    );
    assert_eq!(
        read_crush_attributes(5, 480, "2Z,x"),
        Err(UgcError::InvalidValue { line: 5, value: "x".to_owned() })
    );
}

#[test]
fn crush_points_place_bare_followers_on_the_crush_lane() {
    let lane = Lane::Slider { start: 2, width: 4 };
    let other = Lane::Slider { start: 6, width: 2 };
    let height = AirHeight { code: 3, single_digit: true };
    let high = AirHeight { code: 40, single_digit: false };
    let followers = vec![
        LongFollower::OnStartLane(beat(1)),
        LongFollower::Point(beat(2), other, SlidePointKind::Visible, Some(high)),
    ];
    assert_eq!(
        crush_points(9, beat(0), lane, height, &followers),
        Ok(vec![(beat(0), lane, height), (beat(1), lane, height), (beat(2), other, high)])
    );
}

#[test]
fn crush_points_need_a_follower() {
    let lane = Lane::Slider { start: 2, width: 4 };
    let height = AirHeight { code: 3, single_digit: true };
    assert_eq!(crush_points(9, beat(0), lane, height, &Vec::new()), Err(UgcError::MissingFollower { line: 9 }));
}
