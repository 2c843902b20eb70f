use chart_converter::text::{decimal, line_fields, split_at_char, trim, words};

#[test]
fn splits_at_every_separator() {
    let chars: Vec<char> = "a,,b,".chars().collect();
    assert_eq!(split_at_char(&chars, ','), vec!["a", "", "b", ""]);
    assert_eq!(split_at_char(&[], ','), vec![""]);
}

#[test]
fn splits_words_like_split_whitespace() {
    assert_eq!(words("  a  bb\tc \n"), vec!["a", "bb", "c"]);
    assert!(words("   ").is_empty());
    assert!(words("").is_empty());
}

#[test]
fn trims_white_space_on_both_ends() {
    let chars: Vec<char> = " \t x y \r\n".chars().collect();
    let trimmed: String = trim(&chars).into_iter().collect();
    assert_eq!(trimmed, "x y");
    assert_eq!(line_fields(" a\tb ", '\t'), vec!["a", "b"]);
}

#[test]
fn writes_decimal_numbers() {
    assert_eq!(decimal(0), "0");
    assert_eq!(decimal(18446744073709551615), "18446744073709551615");
}
