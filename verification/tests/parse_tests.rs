use reachability::parse::{
    parse_decimal_u64, parse_target, parse_targets, partition_parsed, TargetParseError,
};

#[test]
fn decimal_parses_zero() {
    assert_eq!(parse_decimal_u64("0"), Some(0));
}

#[test]
fn decimal_parses_a_plain_number() {
    assert_eq!(parse_decimal_u64("2500"), Some(2500));
}

#[test]
fn decimal_parses_leading_zeroes() {
    assert_eq!(parse_decimal_u64("007"), Some(7));
}

#[test]
fn decimal_parses_the_largest_value() {
    assert_eq!(parse_decimal_u64("18446744073709551615"), Some(u64::MAX));
}

#[test]
fn decimal_rejects_one_past_the_largest_value() {
    assert_eq!(parse_decimal_u64("18446744073709551616"), None);
}

#[test]
fn decimal_rejects_empty_text() {
    assert_eq!(parse_decimal_u64(""), None);
}

#[test]
fn decimal_rejects_signs_and_letters() {
    assert_eq!(parse_decimal_u64("-1"), None);
    assert_eq!(parse_decimal_u64("12a"), None);
    assert_eq!(parse_decimal_u64(" 12"), None);
}

#[test]
fn parses_simple_host_and_port() {
    let t = parse_target("example.com:80").unwrap();
    assert_eq!(t.host().as_str(), "example.com");
    assert_eq!(t.port(), 80);
}

#[test]
fn parses_highest_port() {
    let t = parse_target("h:65535").unwrap();
    assert_eq!(t.port(), 65535);
}

#[test]
fn parses_lowest_port() {
    let t = parse_target("h:1").unwrap();
    assert_eq!(t.port(), 1);
}

#[test]
fn leading_zeroes_are_accepted() {
    let t = parse_target("h:0080").unwrap();
    assert_eq!(t.port(), 80);
}

#[test]
fn splits_at_the_last_colon() {
    let t = parse_target("fe80::1:8080").unwrap();
    assert_eq!(t.host().as_str(), "fe80::1");
    assert_eq!(t.port(), 8080);
}

#[test]
fn no_colon_is_a_missing_port() {
    assert_eq!(parse_target("example.com"), Err(TargetParseError::MissingPort));
}

#[test]
fn empty_port_text_is_a_missing_port() {
    assert_eq!(parse_target("example.com:"), Err(TargetParseError::MissingPort));
}

#[test]
fn empty_host_is_rejected() {
    assert_eq!(parse_target(":80"), Err(TargetParseError::EmptyHost));
}

#[test]
fn empty_input_is_a_missing_port() {
    assert_eq!(parse_target(""), Err(TargetParseError::MissingPort));
}

#[test]
fn letters_in_the_port_are_non_numeric() {
    assert_eq!(parse_target("h:8a0"), Err(TargetParseError::NonNumericPort));
}

#[test]
fn a_sign_in_the_port_is_non_numeric() {
    assert_eq!(parse_target("h:-1"), Err(TargetParseError::NonNumericPort));
}

#[test]
fn port_zero_is_out_of_range() {
    assert_eq!(parse_target("h:0"), Err(TargetParseError::PortOutOfRange));
}

#[test]
fn port_65536_is_out_of_range() {
    assert_eq!(parse_target("h:65536"), Err(TargetParseError::PortOutOfRange));
}

#[test]
fn a_huge_port_is_out_of_range() {
    assert_eq!(
        parse_target("h:99999999999999999999999"),
        Err(TargetParseError::PortOutOfRange)
    );
}

#[test]
fn non_numeric_wins_over_out_of_range() {
    assert_eq!(parse_target("h:99999a9"), Err(TargetParseError::NonNumericPort));
}

#[test]
fn each_entry_parses_independently() {
    let inputs = vec![
        String::from("a.example:1"),
        String::from("broken"),
        String::from("b.example:2"),
    ];
    let results = parse_targets(&inputs);
    assert_eq!(results.len(), 3);
    assert!(results[0].is_ok());
    assert_eq!(results[1], Err(TargetParseError::MissingPort));
    assert!(results[2].is_ok());
}

#[test]
fn partition_keeps_targets_in_order_and_failures_with_positions() {
    let inputs = vec![
        String::from("a.example:1"),
        String::from(":9"),
        String::from("b.example:2"),
        String::from("c.example:x"),
    ];
    let results = parse_targets(&inputs);
    let (targets, failures) = partition_parsed(&results);
    assert_eq!(targets.len(), 2);
    assert_eq!(targets[0].host().as_str(), "a.example");
    assert_eq!(targets[0].port(), 1);
    assert_eq!(targets[1].host().as_str(), "b.example");
    assert_eq!(targets[1].port(), 2);
    assert_eq!(failures.len(), 2);
    assert_eq!(failures[0], (1, TargetParseError::EmptyHost));
    assert_eq!(failures[1], (3, TargetParseError::NonNumericPort));
}

#[test]
fn parse_errors_describe_themselves() {
    assert_eq!(TargetParseError::MissingPort.describe(), "missing port");
    assert_eq!(TargetParseError::EmptyHost.describe(), "empty host");
    assert_eq!(TargetParseError::NonNumericPort.describe(), "non-numeric port");
    assert_eq!(TargetParseError::PortOutOfRange.describe(), "port out of range");
}
