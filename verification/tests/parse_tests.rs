use stx_offset::parse::parse_offset;

#[test]
fn plain_decimal_offsets_parse() {
    assert_eq!(parse_offset("20"), 20);
    assert_eq!(parse_offset("0"), 0);
    assert_eq!(parse_offset("007"), 7);
}

#[test]
fn signed_offsets_parse() {
    assert_eq!(parse_offset("+20"), 20);
    assert_eq!(parse_offset("-5"), -5);
    assert_eq!(parse_offset("-0"), 0);
}

#[test]
fn unparsable_input_resolves_to_the_neutral_offset() {
    assert_eq!(parse_offset(""), 0);
    assert_eq!(parse_offset("abc"), 0);
    assert_eq!(parse_offset("12a"), 0);
    assert_eq!(parse_offset("a12"), 0);
    assert_eq!(parse_offset("1 2"), 0);
    assert_eq!(parse_offset(" 12"), 0);
    assert_eq!(parse_offset("+"), 0);
    assert_eq!(parse_offset("-"), 0);
    assert_eq!(parse_offset("--5"), 0);
    assert_eq!(parse_offset("+-5"), 0);
    assert_eq!(parse_offset("12.5"), 0);
}

#[test]
fn the_full_i32_range_is_accepted() {
    assert_eq!(parse_offset("2147483647"), i32::MAX);
    assert_eq!(parse_offset("-2147483648"), i32::MIN);
}

#[test]
fn out_of_range_values_resolve_to_the_neutral_offset() {
    assert_eq!(parse_offset("2147483648"), 0);
    assert_eq!(parse_offset("-2147483649"), 0);
    assert_eq!(parse_offset("99999999999999999999"), 0);
    assert_eq!(parse_offset("-99999999999999999999"), 0);
}
