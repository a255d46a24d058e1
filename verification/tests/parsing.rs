use tds_monitor::{parse_history, parse_reading, ParseError, Reading};

fn bytes(s: &str) -> Vec<u8> {
    s.as_bytes().to_vec()
}

#[test]
fn reading_with_fraction() {
    let r = parse_reading(&bytes("{\"tds_ppm\": 123.456, \"timestamp\": 42}"));
    assert_eq!(r, Ok(Reading::new(123_456, 42)));
}

#[test]
fn reading_integer_value() {
    let r = parse_reading(&bytes("{\"tds_ppm\": 500, \"timestamp\": 1700000000}"));
    assert_eq!(r, Ok(Reading::new(500_000, 1_700_000_000)));
}

#[test]
fn reading_members_in_either_order() {
    let r = parse_reading(&bytes("{ \"timestamp\" : 7 , \"tds_ppm\" : 1.5 }"));
    assert_eq!(r, Ok(Reading::new(1_500, 7)));
}

#[test]
fn reading_short_fraction_scales_up() {
    let r = parse_reading(&bytes("{\"tds_ppm\": 2.5, \"timestamp\": 1}"));
    assert_eq!(r, Ok(Reading::new(2_500, 1)));
    let r = parse_reading(&bytes("{\"tds_ppm\": 2.05, \"timestamp\": 1}"));
    assert_eq!(r, Ok(Reading::new(2_050, 1)));
}

#[test]
fn reading_long_fraction_truncates() {
    let r = parse_reading(&bytes("{\"tds_ppm\": 1.23456, \"timestamp\": 1}"));
    assert_eq!(r, Ok(Reading::new(1_234, 1)));
}

#[test]
fn reading_negative_value() {
    let r = parse_reading(&bytes("{\"tds_ppm\": -5, \"timestamp\": 1}"));
    assert_eq!(r, Ok(Reading::new(-5_000, 1)));
    let r = parse_reading(&bytes("{\"tds_ppm\": -0.25, \"timestamp\": 1}"));
    assert_eq!(r, Ok(Reading::new(-250, 1)));
}

#[test]
fn reading_negative_timestamp() {
    let r = parse_reading(&bytes("{\"tds_ppm\": 1, \"timestamp\": -10}"));
    assert_eq!(r, Ok(Reading::new(1_000, -10)));
}

#[test]
fn malformed_bodies_are_rejected() {
    assert_eq!(parse_reading(&bytes("")), Err(ParseError::Malformed));
    assert_eq!(parse_reading(&bytes("{}")), Err(ParseError::Malformed));
    assert_eq!(
        parse_reading(&bytes("{\"tds_ppm\": 1}")),
        Err(ParseError::Malformed)
    );
    assert_eq!(
        parse_reading(&bytes("{\"tds_ppm\": 1, \"tds_ppm\": 2}")),
        Err(ParseError::Malformed)
    );
    assert_eq!(
        parse_reading(&bytes("{\"tds_ppm\": 1e3, \"timestamp\": 1}")),
        Err(ParseError::Malformed)
    );
    assert_eq!(
        parse_reading(&bytes("{\"tds_ppm\": 1., \"timestamp\": 1}")),
        Err(ParseError::Malformed)
    );
    assert_eq!(
        parse_reading(&bytes("{\"tds_ppm\": 1, \"timestamp\": 1} trailing")),
        Err(ParseError::Malformed)
    );
    assert_eq!(
        parse_reading(&bytes("{\"tds_ppm\": 1234567890123, \"timestamp\": 1}")),
        Err(ParseError::Malformed)
    );
}

#[test]
fn history_empty_array() {
    let r = parse_history(&bytes("  [ ]  "));
    assert_eq!(r, Ok(Vec::new()));
}

#[test]
fn history_three_readings() {
    let body = "[{\"tds_ppm\": 100, \"timestamp\": 1},\n {\"tds_ppm\": 500, \"timestamp\": 2},\n {\"tds_ppm\": 1300, \"timestamp\": 3}]";
    let r = parse_history(&bytes(body));
    assert_eq!(
        r,
        Ok(vec![
            Reading::new(100_000, 1),
            Reading::new(500_000, 2),
            Reading::new(1_300_000, 3),
        ])
    );
}

#[test]
fn history_malformed_bodies_are_rejected() {
    assert_eq!(parse_history(&bytes("")), Err(ParseError::Malformed));
    assert_eq!(parse_history(&bytes("[")), Err(ParseError::Malformed));
    assert_eq!(
        parse_history(&bytes("[{\"tds_ppm\": 1, \"timestamp\": 1},]")),
        Err(ParseError::Malformed)
    );
    assert_eq!(
        parse_history(&bytes("{\"tds_ppm\": 1, \"timestamp\": 1}")),
        Err(ParseError::Malformed)
    );
}
