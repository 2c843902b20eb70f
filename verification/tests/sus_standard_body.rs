use chart_converter::sus_standard_body::{standard_body, StandardEntry};

fn entry(speed_group: Option<u32>, attributes: Option<usize>, lines: Option<Vec<&str>>) -> StandardEntry {
    StandardEntry {
        speed_group,
        attributes,
        lines: lines.map(|lines| lines.into_iter().map(str::to_owned).collect()),
    }
}

#[test]
fn standard_body_writes_each_note_after_its_switches() {
    let entries = vec![
        entry(None, None, Some(vec!["#00010:10", "#00011:10"])),
        entry(Some(2), Some(0), Some(vec!["#00112:10"])),
        entry(Some(2), Some(0), None),
        entry(None, None, Some(vec!["#00213:10"])),
    ];
    let texts = vec!["h:2".to_owned()];
    assert_eq!(
        standard_body(&entries, &texts).unwrap(),
        "#00010:10\n#00011:10\n#HISPEED 02\n#ATR00: \"h:2\"\n#ATTRIBUTE 00\n#00112:10\n\
         #NOSPEED\n#NOATTRIBUTE\n#00213:10\n"
    );
}

#[test]
fn standard_body_switches_before_a_note_that_cannot_be_written() {
    let entries = vec![entry(Some(1), Some(0), None)];
    let texts = vec!["pr:3".to_owned()];
    assert_eq!(
        standard_body(&entries, &texts).unwrap(),
        "#HISPEED 01\n#ATR00: \"pr:3\"\n#ATTRIBUTE 00\n"
    );
}

#[test]
fn standard_body_refuses_more_attribute_sets_than_ids() {
    let entries: Vec<StandardEntry> = (0..1297usize).map(|i| entry(None, Some(i % 2), None)).collect();
    let texts = vec!["a".to_owned(), "b".to_owned()];
    assert!(standard_body(&entries, &texts).is_none());
}
