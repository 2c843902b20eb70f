use chart_converter::air_parent::{find_air_parent, parse_standard_parent, AirParentCandidate, StandardParent};
use chart_converter::note::Lane;
use chart_converter::position::Position;

fn candidate(start: u64, end: u64, lane_start: u8, parent: Option<StandardParent>) -> AirParentCandidate {
    AirParentCandidate {
        position: Position::new(start, 1).unwrap(),
        end: Position::new(end, 1).unwrap(),
        lane: Lane::slider(lane_start, 2).unwrap(),
        parent,
    }
}

#[test]
fn parent_codes_read_back() {
    for parent in [
        StandardParent::Tap,
        StandardParent::Flick,
        StandardParent::ChargeTap,
        StandardParent::Mine,
        StandardParent::Hold,
        StandardParent::Slide,
    ] {
        assert_eq!(parse_standard_parent(parent.code()), Some(parent));
    }
    assert_eq!(StandardParent::ChargeTap.code(), "CHR");
    assert_eq!(parse_standard_parent("tap"), None);
    assert_eq!(parse_standard_parent("TAPS"), None);
}

#[test]
fn air_stands_on_the_last_note_that_carries_it() {
    let at = |beat: u64| Position::new(beat, 1).unwrap();
    let lane = Lane::slider(4, 2).unwrap();
    let candidates = vec![
        candidate(1, 1, 4, Some(StandardParent::Tap)),
        candidate(0, 1, 8, Some(StandardParent::Hold)),
        candidate(1, 1, 4, None),
        candidate(1, 1, 9, Some(StandardParent::Tap)),
    ];
    assert_eq!(find_air_parent(&candidates, at(1), lane, None), Some(3));
    assert_eq!(find_air_parent(&candidates, at(1), lane, Some("HLD")), Some(1));
    assert_eq!(find_air_parent(&candidates, at(1), lane, Some("SLD")), None);
    assert_eq!(find_air_parent(&candidates, at(1), lane, Some("XYZ")), None);
    assert_eq!(find_air_parent(&candidates, at(2), lane, None), None);
}
