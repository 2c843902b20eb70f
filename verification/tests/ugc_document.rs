use chart_converter::position::Position;
use chart_converter::ugc::UgcError;
use chart_converter::ugc_document::{ugc_document, HeadRecord, NoteRecord};

fn head(measure: u32, tick: u64, text: &str) -> HeadRecord {
    HeadRecord { measure, tick, text: text.to_owned() }
}

fn note(measure: u32, tick: u64, parent_order: u32, is_air: bool, order: u32, speed_group: Option<u32>, text: &str) -> NoteRecord {
    NoteRecord { measure, tick, parent_order, is_air, order, speed_group, text: text.to_owned() }
}

#[test]
fn ugc_document_writes_a_four_four_bar_without_lengths() {
    let text = ugc_document(None, &Vec::new(), &Vec::new(), &Vec::new(), &Vec::new()).unwrap();
    assert_eq!(text, "@VER\t8\n@EXVER\t1\n@TICKS\t480\n@BEAT\t0\t4\t4\n@ENDHEAD\n");
}

#[test]
fn ugc_document_orders_header_and_note_records() {
    let lengths = vec![(0, Position::new(3, 1).unwrap()), (2, Position::new(7, 2).unwrap())];
    let tempos = vec![head(1, 0, "@BPM\t1'0\t150.000000\n"), head(0, 0, "@BPM\t0'0\t120.000000\n")];
    let speeds = vec![head(0, 240, "@TIL\t1\t0'240\t2.000000\n")];
    let notes = vec![
        note(0, 480, 0, false, 1, None, "#0'480:t21\n"),
        note(0, 0, 0, true, 0, Some(1), "#0'0:a21U\n"),
        note(0, 0, 0, false, 0, None, "#0'0:t21\n"),
    ];
    let text = ugc_document(Some("120".to_owned()), &lengths, &tempos, &speeds, &notes).unwrap();
    assert_eq!(
        text,
        "@VER\t8\n@EXVER\t1\n@TICKS\t480\n@MAINBPM\t120\n@BEAT\t0\t3\t4\n@BEAT\t2\t7\t8\n\
         @BPM\t0'0\t120.000000\n@BPM\t1'0\t150.000000\n@TIL\t1\t0'240\t2.000000\n@ENDHEAD\n\
         #0'0:t21\n@USETIL\t1\n#0'0:a21U\n@USETIL\t0\n#0'480:t21\n"
    );
}

#[test]
fn ugc_document_refuses_a_length_it_cannot_write() {
    let lengths = vec![(0, Position::new(1, u64::MAX).unwrap())];
    assert_eq!(
        ugc_document(None, &lengths, &Vec::new(), &Vec::new(), &Vec::new()),
        Err(UgcError::UnrepresentablePosition)
    );
}
