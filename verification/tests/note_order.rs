use chart_converter::note_order::standard_note_order;

#[test]
fn notes_without_parents_keep_their_order() {
    assert_eq!(standard_note_order(&vec![None, None, None]), vec![0, 1, 2]);
    assert_eq!(standard_note_order(&vec![]), Vec::<u32>::new());
}

#[test]
fn notes_follow_the_notes_they_hang_from() {
    assert_eq!(standard_note_order(&vec![Some(2), None, None]), vec![2, 0, 1]);
    assert_eq!(standard_note_order(&vec![Some(1), Some(2), None]), vec![2, 1, 0]);
    assert_eq!(standard_note_order(&vec![None, Some(0), Some(0)]), vec![0, 1, 2]);
}

#[test]
fn parents_outside_the_chart_are_ignored() {
    assert_eq!(standard_note_order(&vec![Some(5), None]), vec![0, 1]);
}

#[test]
fn a_cycle_is_listed_once_from_its_first_note() {
    assert_eq!(standard_note_order(&vec![Some(1), Some(0)]), vec![1, 0]);
}
