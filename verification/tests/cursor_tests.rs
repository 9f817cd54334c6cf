use res_relay::cursor::{format_cursor, init_cursor, parse_cursor};

#[test]
fn parse_plain_number() {
    assert_eq!(parse_cursor("42"), Some(42));
}

#[test]
fn parse_with_trailing_newline() {
    assert_eq!(parse_cursor("42\n"), Some(42));
}

#[test]
fn parse_with_surrounding_whitespace() {
    assert_eq!(parse_cursor("  7\r\n"), Some(7));
    assert_eq!(parse_cursor("\t0 \n"), Some(0));
}

#[test]
fn parse_zero() {
    assert_eq!(parse_cursor("0\n"), Some(0));
}

#[test]
fn parse_largest_value() {
    assert_eq!(parse_cursor("2147483647\n"), Some(2147483647));
}

#[test]
fn parse_rejects_out_of_range() {
    assert_eq!(parse_cursor("2147483648\n"), None);
    assert_eq!(parse_cursor("99999999999999999999\n"), None);
}

#[test]
fn parse_rejects_empty_and_blank() {
    assert_eq!(parse_cursor(""), None);
    assert_eq!(parse_cursor(" \n\t"), None);
}

#[test]
fn parse_rejects_non_digits() {
    assert_eq!(parse_cursor("abc\n"), None);
    assert_eq!(parse_cursor("12x\n"), None);
    assert_eq!(parse_cursor("-3\n"), None);
    assert_eq!(parse_cursor("1 2\n"), None);
}

#[test]
fn format_writes_decimal_and_newline() {
    assert_eq!(format_cursor(0), "0\n");
    assert_eq!(format_cursor(123), "123\n");
    assert_eq!(format_cursor(2147483647), "2147483647\n");
}

#[test]
fn format_then_parse_round_trips() {
    for v in [0, 1, 9, 10, 499, 2147483647] {
        let text = format_cursor(v);
        assert_eq!(parse_cursor(&text), Some(v));
    }
}

#[test]
fn init_prefers_persisted_value() {
    assert_eq!(init_cursor(Some(5), None), 5);
    assert_eq!(init_cursor(Some(5), Some(99)), 5);
    assert_eq!(init_cursor(Some(0), None), 0);
}

#[test]
fn init_falls_back_to_table_max() {
    assert_eq!(init_cursor(None, Some(17)), 17);
    assert_eq!(init_cursor(None, Some(0)), 0);
}

#[test]
fn init_is_zero_for_empty_table() {
    assert_eq!(init_cursor(None, None), 0);
}

#[test]
fn init_never_negative() {
    assert_eq!(init_cursor(None, Some(-3)), 0);
}
