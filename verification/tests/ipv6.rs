use four_in_a_row::parse_ipv6_address;

#[test]
fn full_address_parses_group_by_group() {
    assert_eq!(parse_ipv6_address("1:2:3:4:5:6:7:8"), vec![1, 2, 3, 4, 5, 6, 7, 8]);
}

#[test]
fn loopback_gap_expands_to_eight_groups() {
    assert_eq!(parse_ipv6_address("::1"), vec![0, 0, 0, 0, 0, 0, 0, 1]);
}

#[test]
fn trailing_gap_expands_to_eight_groups() {
    assert_eq!(
        parse_ipv6_address("fe80::"),
        vec![0xfe80, 0, 0, 0, 0, 0, 0, 0]
    );
}

#[test]
fn middle_gap_expands_to_eight_groups() {
    assert_eq!(
        parse_ipv6_address("2001:db8::8a2e:370:7334"),
        vec![0x2001, 0xdb8, 0, 0, 0, 0x8a2e, 0x370, 0x7334]
    );
}

#[test]
fn hex_digits_parse_in_either_case() {
    assert_eq!(
        parse_ipv6_address("FF:ff:AA:aa:1:2:3:4"),
        vec![0xff, 0xff, 0xaa, 0xaa, 1, 2, 3, 4]
    );
}

#[test]
fn short_address_without_gap_keeps_its_groups() {
    assert_eq!(parse_ipv6_address("1:2"), vec![1, 2]);
}

#[test]
fn leading_plus_is_accepted_as_the_integer_parser_does() {
    assert_eq!(parse_ipv6_address("+1f:2"), vec![0x1f, 2]);
}
