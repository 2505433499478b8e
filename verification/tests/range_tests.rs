use trust::range::parse_range;

#[test]
fn empty_means_whole_buffer() {
    assert_eq!(parse_range("", 10), Some((1, 10)));
}

#[test]
fn bare_number_is_single_line() {
    assert_eq!(parse_range("5", 10), Some((5, 5)));
}

#[test]
fn open_upper_bound_defaults_to_line_count() {
    assert_eq!(parse_range("3-", 10), Some((3, 10)));
}

#[test]
fn open_lower_bound_defaults_to_one() {
    assert_eq!(parse_range("-4", 10), Some((1, 4)));
}

#[test]
fn inverted_range_is_invalid() {
    assert_eq!(parse_range("5-2", 10), None);
}

#[test]
fn zero_is_invalid() {
    assert_eq!(parse_range("0", 10), None);
    assert_eq!(parse_range("0-3", 10), None);
    assert_eq!(parse_range("2-0", 10), None);
}

#[test]
fn non_numeric_is_invalid() {
    assert_eq!(parse_range("abc", 10), None);
    assert_eq!(parse_range("1-2-3", 10), None);
    assert_eq!(parse_range("+5", 10), None);
}

#[test]
fn upper_bound_is_clamped() {
    assert_eq!(parse_range("3-99", 10), Some((3, 10)));
}

#[test]
fn line_past_end_is_invalid() {
    assert_eq!(parse_range("15", 10), None);
}

#[test]
fn surrounding_whitespace_is_trimmed() {
    assert_eq!(parse_range("  7  ", 10), Some((7, 7)));
    assert_eq!(parse_range(" 2-4 ", 10), Some((2, 4)));
}

#[test]
fn overflowing_number_is_invalid() {
    assert_eq!(parse_range("99999999999999999999999", 10), None);
}

#[test]
fn full_range_given_explicitly() {
    assert_eq!(parse_range("1-10", 10), Some((1, 10)));
}
