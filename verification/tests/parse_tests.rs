use tickbox::parse::{parse_range, parse_usize_all, parse_usize_prefix};

#[test]
fn prefix_of_step_file_names() {
    assert_eq!(parse_usize_prefix("01-first"), Some(1));
    assert_eq!(parse_usize_prefix("20-second"), Some(20));
    assert_eq!(parse_usize_prefix("7"), Some(7));
    assert_eq!(parse_usize_prefix("007x"), Some(7));
}

#[test]
fn prefix_requires_a_leading_digit() {
    assert_eq!(parse_usize_prefix("first"), None);
    assert_eq!(parse_usize_prefix(""), None);
    assert_eq!(parse_usize_prefix("-1"), None);
    assert_eq!(parse_usize_prefix(" 1"), None);
}

#[test]
fn prefix_overflow_is_rejected() {
    assert_eq!(parse_usize_prefix("99999999999999999999999-x"), None);
    assert_eq!(parse_usize_prefix(&format!("{}", usize::MAX)), Some(usize::MAX));
}

#[test]
fn whole_number_parsing() {
    assert_eq!(parse_usize_all("42"), Some(42));
    assert_eq!(parse_usize_all("+42"), Some(42));
    assert_eq!(parse_usize_all(""), None);
    assert_eq!(parse_usize_all("+"), None);
    assert_eq!(parse_usize_all("4 2"), None);
    assert_eq!(parse_usize_all("42x"), None);
}

#[test]
fn range_parsing_accepts_ordered_pairs() {
    assert_eq!(parse_range("1-3"), Ok((1, 3)));
    assert_eq!(parse_range("0-0"), Ok((0, 0)));
    assert_eq!(parse_range("+2-+5"), Ok((2, 5)));
}

#[test]
fn range_parsing_errors_name_the_problem() {
    assert_eq!(parse_range("123"), Err("Invalid range format: 123".to_string()));
    assert_eq!(parse_range("1-2-3"), Err("Invalid range format: 1-2-3".to_string()));
    assert_eq!(parse_range(""), Err("Invalid range format: ".to_string()));
    assert_eq!(parse_range("a-2"), Err("Invalid number: a".to_string()));
    assert_eq!(parse_range("1-b"), Err("Invalid number: b".to_string()));
    assert_eq!(parse_range("5-2"), Err("End must be less than start: 5-2".to_string()));
}
