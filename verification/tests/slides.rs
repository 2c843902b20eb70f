use chart_converter::note::{Lane, SlidePoint, SlidePointKind};
use chart_converter::position::Position;
use chart_converter::slides::{resolve_slides, LongNoteChannels, SliderEvent};
use chart_converter::sus::SusError;

fn event(line: usize, channel: char, beat: u64, kind: u8) -> SliderEvent {
    SliderEvent {
        line,
        channel,
        position: Position::new(beat, 1).unwrap(),
        lane: Lane::slider(2, 3).unwrap(),
        kind,
    }
}

fn point(beat: u64) -> SlidePoint {
    SlidePoint::new(Position::new(beat, 1).unwrap(), Lane::slider(2, 3).unwrap())
}

#[test]
fn slides_gather_their_points_in_time_order() {
    let events = vec![event(3, 'a', 4, b'2'), event(1, 'a', 0, b'1'), event(2, 'a', 2, b'4')];
    let slides = resolve_slides(&events).unwrap();
    assert_eq!(slides, vec![(0, vec![point(0), point(2).with_kind(SlidePointKind::Control), point(4)])]);
}

#[test]
fn channels_hold_separate_slides() {
    let events = vec![
        event(1, 'a', 0, b'1'),
        event(1, 'b', 1, b'1'),
        event(2, 'b', 2, b'5'),
        event(2, 'a', 3, b'2'),
        event(3, 'b', 4, b'2'),
    ];
    let slides = resolve_slides(&events).unwrap();
    assert_eq!(
        slides,
        vec![
            (3, vec![point(0), point(3)]),
            (4, vec![point(1), point(2).with_kind(SlidePointKind::Invisible), point(4)]),
        ]
    );
}

#[test]
fn a_channel_can_open_again_once_closed() {
    let events = vec![event(1, 'a', 0, b'1'), event(1, 'a', 1, b'2'), event(2, 'a', 1, b'1'), event(2, 'a', 2, b'2')];
    let slides = resolve_slides(&events).unwrap();
    assert_eq!(slides, vec![(1, vec![point(0), point(1)]), (3, vec![point(1), point(2)])]);
}

#[test]
fn slider_errors_name_the_line_and_channel() {
    assert_eq!(
        resolve_slides(&vec![event(1, 'a', 0, b'1'), event(2, 'a', 1, b'1')]),
        Err(SusError::InvalidValue { line: 2, value: "a".to_owned() })
    );
    assert_eq!(resolve_slides(&vec![event(4, 'c', 0, b'2')]), Err(SusError::MissingStart { line: 4, channel: 'c' }));
    assert_eq!(resolve_slides(&vec![event(4, 'c', 0, b'3')]), Err(SusError::MissingStart { line: 4, channel: 'c' }));
    assert_eq!(resolve_slides(&vec![event(1, 'd', 0, b'1')]), Err(SusError::MissingEnd { channel: 'd' }));
    assert_eq!(resolve_slides(&vec![]), Ok(vec![]));
}

#[test]
fn long_note_channels_give_back_their_start() {
    let mut channels = LongNoteChannels::new();
    assert_eq!(channels.open_channel(), None);
    assert_eq!(channels.open(1, 'a', point(0)), Ok(()));
    assert_eq!(channels.open(2, 'b', point(1)), Ok(()));
    assert_eq!(channels.open(3, 'a', point(2)), Err(SusError::InvalidValue { line: 3, value: "a".to_owned() }));
    assert_eq!(channels.relay(4, 'a'), Ok(()));
    assert_eq!(channels.relay(4, 'c'), Err(SusError::MissingStart { line: 4, channel: 'c' }));
    assert_eq!(channels.close(5, 'a'), Ok(point(0)));
    assert_eq!(channels.close(6, 'a'), Err(SusError::MissingStart { line: 6, channel: 'a' }));
    assert_eq!(channels.open_channel(), Some('b'));
    assert_eq!(channels.close(7, 'b'), Ok(point(1)));
    assert_eq!(channels.open_channel(), None);
}
