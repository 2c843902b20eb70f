use chart_converter::record_order::record_order;

#[test]
fn orders_records_by_key_number_by_number() {
    let keys = vec![vec![1, 96, 0], vec![0, 384, 1], vec![1, 0, 2], vec![0, 384, 0]];
    assert_eq!(record_order(&keys), vec![3, 1, 2, 0]);
}

#[test]
fn keeps_records_with_equal_keys_in_their_order() {
    let keys = vec![vec![2, 5], vec![1, 7], vec![2, 5], vec![1, 7], vec![0, 9]];
    assert_eq!(record_order(&keys), vec![4, 1, 3, 0, 2]);
}

#[test]
fn puts_a_key_before_the_keys_it_begins() {
    let keys = vec![vec![0, 0, 51, 50], vec![0, 0, 51], vec![0, 0, 49, 52]];
    assert_eq!(record_order(&keys), vec![2, 1, 0]);
    assert_eq!(record_order(&Vec::new()), Vec::<usize>::new());
}
