use clipwave::error::{EngineError, ValidationIssue};
use clipwave::time::{parse_hh_mm_ss, parse_hh_mm_ss_with_millis, time_for_filename};

fn issue(s: &str) -> Option<ValidationIssue> {
    match parse_hh_mm_ss_with_millis(s) {
        Err(EngineError::Validation(v)) => Some(v),
        _ => None,
    }
}

#[test]
fn times_with_fractions() {
    assert_eq!(parse_hh_mm_ss_with_millis("00:00:05.5"), Ok(5_500_000));
    assert_eq!(parse_hh_mm_ss_with_millis("01:02:03.170"), Ok(3_723_170_000));
    assert_eq!(parse_hh_mm_ss_with_millis("0:00:00"), Ok(0));
    assert_eq!(parse_hh_mm_ss_with_millis("100:59:59.9999999"), Ok(363_599_999_999));
    assert_eq!(parse_hh_mm_ss("00:01:59.999"), Ok(119));
}

#[test]
fn time_errors_in_order() {
    assert_eq!(issue("00:05"), Some(ValidationIssue::TimeFormat));
    assert_eq!(issue("00:00:00:01"), Some(ValidationIssue::TimeFormat));
    assert_eq!(issue(":00:01"), Some(ValidationIssue::Hours));
    assert_eq!(issue("a1:00:01"), Some(ValidationIssue::Hours));
    assert_eq!(issue("00:0:01"), Some(ValidationIssue::Minutes));
    assert_eq!(issue("00:0x:01"), Some(ValidationIssue::Minutes));
    assert_eq!(issue("00:00:x"), Some(ValidationIssue::Seconds));
    assert_eq!(issue("00:00:"), Some(ValidationIssue::Seconds));
    assert_eq!(issue("00:60:00"), Some(ValidationIssue::TimeRange));
    assert_eq!(issue("00:00:60"), Some(ValidationIssue::TimeRange));
    assert_eq!(issue("00:00:-1"), Some(ValidationIssue::TimeRange));
    assert_eq!(
        EngineError::Validation(ValidationIssue::TimeRange).message(),
        "Minutes and seconds must be < 60"
    );
}

#[test]
fn colons_become_h_in_file_names() {
    assert_eq!(time_for_filename("00:01:02.5"), "00h01h02.5");
    assert_eq!(time_for_filename(""), "");
}
