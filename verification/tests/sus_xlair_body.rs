use chart_converter::position::Position;
use chart_converter::sus_xlair_body::{body_keys, xlair_body, BodyRecord};
use chart_converter::timeline::MeasureTimeline;

fn record(measure: u32, tick: u64, key: &str, token: &str, speed_group: Option<u32>, attributes: Option<usize>) -> BodyRecord {
    BodyRecord { measure, tick, key: key.to_owned(), token: token.to_owned(), speed_group, attributes }
}

fn timeline() -> MeasureTimeline {
    MeasureTimeline::new(Position::new(4, 1).unwrap())
}

#[test]
fn xlair_body_orders_records_by_measure_and_tick() {
    let records = vec![
        record(1, 0, "14", "12", None, None),
        record(0, 1, "10", "11", None, None),
    ];
    let body = xlair_body(&timeline(), 1, &records, &Vec::new()).unwrap();
    assert_eq!(body.text, "#00010: 00110000\n#00114: 12000000\n");
    assert!(body.lost.is_empty());
}

#[test]
fn xlair_body_puts_starts_before_relay_points_at_one_tick() {
    let records = vec![
        record(0, 0, "3a0", "20", None, None),
        record(0, 0, "3b0", "10", None, None),
        record(0, 0, "3c0", "30", None, None),
    ];
    let body = xlair_body(&timeline(), 1, &records, &Vec::new()).unwrap();
    assert_eq!(body.text, "#0003b0: 10000000\n#0003c0: 30000000\n#0003a0: 20000000\n");
}

#[test]
fn xlair_body_switches_speed_groups_and_attributes() {
    let records = vec![
        record(0, 0, "10", "11", Some(37), Some(0)),
        record(0, 1, "10", "11", Some(37), Some(0)),
        record(0, 2, "10", "11", None, None),
        record(0, 3, "10", "11", None, Some(0)),
    ];
    let texts = vec!["pr:1".to_owned()];
    let body = xlair_body(&timeline(), 1, &records, &texts).unwrap();
    assert_eq!(
        body.text,
        "#HISPEED 11\n#ATR00: \"pr:1\"\n#ATTRIBUTE 00\n#00010: 11000000\n#00010: 00110000\n\
         #NOSPEED\n#NOATTRIBUTE\n#00010: 00001100\n#ATR01: \"pr:1\"\n#ATTRIBUTE 01\n#00010: 00000011\n"
    );
}

#[test]
fn xlair_body_lists_records_outside_their_measure_as_lost() {
    let records = vec![
        record(0, 4, "10", "11", None, None),
        record(0, 0, "10", "11", Some(1), None),
    ];
    let body = xlair_body(&timeline(), 1, &records, &Vec::new()).unwrap();
    assert_eq!(body.text, "#HISPEED 01\n#00010: 11000000\n");
    assert_eq!(body.lost, vec![0]);
}

#[test]
fn xlair_body_refuses_more_attribute_sets_than_ids() {
    let records: Vec<BodyRecord> =
        (0..1297u64).map(|i| record(0, 0, "10", "11", None, Some((i % 2) as usize))).collect();
    let texts = vec!["a".to_owned(), "b".to_owned()];
    assert!(xlair_body(&timeline(), 1, &records, &texts).is_none());
}

#[test]
fn body_keys_order_by_position_key_ending_and_token() {
    let keys = body_keys(&vec![record(2, 5, "1b", "31", None, None)]);
    assert_eq!(keys, vec![vec![2, 5, u64::from(b'b'), 1, u64::from(b'1'), u64::from(b'b')]]);
}
