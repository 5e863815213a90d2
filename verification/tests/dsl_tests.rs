use avicore::dsl::{duration_outcome, time_parse_duration, title};
use avicore::json::JsonValue;

fn s(x: &str) -> String {
    String::from(x)
}

#[test]
fn format_fills_fields_with_member_texts() {
    let obj = vec![
        (s("name"), JsonValue::Str(s("Ana"))),
        (s("n"), JsonValue::Number(s("3"))),
        (s("ok"), JsonValue::Bool(true)),
    ];
    assert_eq!(avicore::dsl::format("Hello {name}, {n} new, {ok}", &obj), Ok(s("Hello Ana, 3 new, true")));
}

#[test]
fn format_reports_missing_key() {
    let obj = vec![(s("name"), JsonValue::Str(s("Ana")))];
    assert_eq!(avicore::dsl::format("Hi {who}", &obj), Err(s("KeyError(Invalid key: who)")));
}

#[test]
fn title_case() {
    assert_eq!(title("the quick brown fox"), "The Quick Brown Fox");
}

#[test]
fn durations_in_milliseconds() {
    assert_eq!(time_parse_duration("1h"), Ok(3_600_000));
    assert_eq!(time_parse_duration("1h 30m"), Ok(5_400_000));
    assert_eq!(time_parse_duration("250ms"), Ok(250));
}

#[test]
fn duration_errors_are_prefixed() {
    assert_eq!(time_parse_duration(""), Err(s("Duration parse error: value was empty")));
    assert_eq!(time_parse_duration("1~"), Err(s("Duration parse error: invalid character at 1")));
}

#[test]
fn duration_outcome_maps_results() {
    assert_eq!(duration_outcome(Ok(5)), Ok(5));
    assert_eq!(duration_outcome(Err(s("boom"))), Err(s("Duration parse error: boom")));
}

#[test]
fn duration_texts_with_too_many_digits_are_not_read() {
    assert!(avicore::dsl::duration_digits_in_range("1h 30m"));
    assert!(avicore::dsl::duration_digits_in_range("99999999999s"));
    assert!(!avicore::dsl::duration_digits_in_range("999999999999s"));
    assert!(avicore::dsl::duration_digits_in_range("000000000001s"));
    assert_eq!(avicore::dsl::time_parse_duration_checked("000000000001s"), Some(Ok(1_000)));
    assert!(avicore::dsl::duration_digits_in_range("584542046000s"));
    assert!(!avicore::dsl::duration_digits_in_range("584542046091s"));
    assert_eq!(avicore::dsl::time_parse_duration_checked("18446744073709551615s 1000000000ns"), None);
    assert_eq!(avicore::dsl::time_parse_duration_checked("1h"), Some(Ok(3_600_000)));
    assert_eq!(
        avicore::dsl::time_parse_duration_checked("x"),
        Some(Err(s("Duration parse error: expected number at 0")))
    );
}
