use toomuch::timeout::{
    invalid_timeout, launch, parse_duration, usage, DurationError, StartError, Timeout,
    USAGE_FAILURE,
};

fn millis(text: &str) -> u128 {
    match parse_duration(text) {
        Ok(timeout) => timeout.millis,
        Err(error) => panic!("{:?} is no duration: {:?}", text, error),
    }
}

#[test]
fn plain_number_is_seconds() {
    assert_eq!(parse_duration("30"), Ok(Timeout { millis: 30_000 }));
    assert_eq!(millis("0"), 0);
    assert_eq!(millis("1"), 1_000);
}

#[test]
fn seconds_suffix() {
    assert_eq!(millis("30s"), 30_000);
}

#[test]
fn minutes_suffix() {
    assert_eq!(parse_duration("2m"), Ok(Timeout { millis: 120_000 }));
}

#[test]
fn hours_suffix() {
    assert_eq!(parse_duration("1h"), Ok(Timeout { millis: 3_600_000 }));
}

#[test]
fn milliseconds_suffix() {
    assert_eq!(parse_duration("500ms"), Ok(Timeout { millis: 500 }));
}

#[test]
fn durations_agree_with_std() {
    assert_eq!(millis("30"), std::time::Duration::from_secs(30).as_millis());
    assert_eq!(millis("2m"), std::time::Duration::from_secs(120).as_millis());
    assert_eq!(millis("1h"), std::time::Duration::from_secs(3600).as_millis());
    assert_eq!(millis("500ms"), std::time::Duration::from_millis(500).as_millis());
}

#[test]
fn empty_text_is_an_error() {
    assert_eq!(parse_duration(""), Err(DurationError::Empty));
    assert_eq!(parse_duration("   "), Err(DurationError::Empty));
    assert_eq!(parse_duration("\t\n"), Err(DurationError::Empty));
}

#[test]
fn text_without_number_is_an_error() {
    assert_eq!(parse_duration("abc"), Err(DurationError::InvalidNumber));
    assert_eq!(parse_duration("m"), Err(DurationError::InvalidNumber));
    assert_eq!(parse_duration("-5"), Err(DurationError::InvalidNumber));
    assert_eq!(parse_duration("+5"), Err(DurationError::InvalidNumber));
    assert_eq!(parse_duration(".5s"), Err(DurationError::InvalidNumber));
}

#[test]
fn unknown_suffix_is_an_error() {
    assert_eq!(parse_duration("10x"), Err(DurationError::UnknownUnit));
    assert_eq!(parse_duration("10S"), Err(DurationError::UnknownUnit));
    assert_eq!(parse_duration("10 s"), Err(DurationError::UnknownUnit));
    assert_eq!(parse_duration("10sm"), Err(DurationError::UnknownUnit));
    assert_eq!(parse_duration("10mss"), Err(DurationError::UnknownUnit));
    assert_eq!(parse_duration("1.5s"), Err(DurationError::UnknownUnit));
    assert_eq!(parse_duration("10s5"), Err(DurationError::UnknownUnit));
}

#[test]
fn surrounding_white_space_is_ignored() {
    assert_eq!(millis("  5s  "), 5_000);
    assert_eq!(millis("\t7m\n"), 420_000);
    assert_eq!(millis("\u{a0}5\u{3000}"), 5_000);
}

#[test]
fn leading_zeros_are_accepted() {
    assert_eq!(millis("007"), 7_000);
    assert_eq!(millis("000ms"), 0);
}

#[test]
fn digits_of_other_scripts_are_no_digits() {
    assert_eq!(parse_duration("\u{663}"), Err(DurationError::InvalidNumber));
    assert_eq!(parse_duration("5\u{663}"), Err(DurationError::UnknownUnit));
}

#[test]
fn number_must_fit_sixty_four_bits() {
    assert_eq!(millis("18446744073709551615ms"), 18_446_744_073_709_551_615);
    assert_eq!(parse_duration("18446744073709551616ms"), Err(DurationError::InvalidNumber));
    assert_eq!(parse_duration("18446744073709551616"), Err(DurationError::InvalidNumber));
    assert_eq!(
        parse_duration("99999999999999999999999999999999999999999999s"),
        Err(DurationError::InvalidNumber)
    );
    // the number is looked at before the unit
    assert_eq!(parse_duration("18446744073709551616x"), Err(DurationError::InvalidNumber));
}

#[test]
fn large_numbers_do_not_wrap() {
    assert_eq!(millis("18446744073709551615"), 18_446_744_073_709_551_615_000);
    assert_eq!(millis("18446744073709551615m"), 18_446_744_073_709_551_615 * 60_000);
    assert_eq!(millis("18446744073709551615h"), 18_446_744_073_709_551_615 * 3_600_000);
}

#[test]
fn error_messages() {
    assert_eq!(DurationError::Empty.message(""), "empty duration");
    assert_eq!(DurationError::InvalidNumber.message(" abc "), "invalid number in duration: abc");
    assert_eq!(DurationError::UnknownUnit.message(" 10x "), "unknown duration unit: x");
    assert_eq!(DurationError::UnknownUnit.message("10 s"), "unknown duration unit:  s");
    assert_eq!(DurationError::UnknownUnit.message("10\u{e9}\u{e9}"), "unknown duration unit: \u{e9}\u{e9}");
    assert_eq!(DurationError::UnknownUnit.message("10"), "unknown duration unit: s");
    assert_eq!(
        invalid_timeout(DurationError::InvalidNumber, "abc"),
        "invalid timeout: invalid number in duration: abc"
    );
    assert_eq!(invalid_timeout(DurationError::Empty, " "), "invalid timeout: empty duration");
    assert_eq!(usage(), "usage: toomuch <duration> <command> [args...]");
    assert_eq!(USAGE_FAILURE, 1);
}

fn strings(items: &[&str]) -> Vec<String> {
    let mut all = Vec::new();
    for item in items {
        all.push(item.to_string());
    }
    all
}

#[test]
fn launch_needs_duration_and_command() {
    assert_eq!(launch(strings(&[])), Err(StartError::Usage));
    assert_eq!(launch(strings(&["5"])), Err(StartError::Usage));
    assert_eq!(launch(strings(&["bogus"])), Err(StartError::Usage));
}

#[test]
fn launch_rejects_bad_duration() {
    assert_eq!(
        launch(strings(&["abc", "sleep"])),
        Err(StartError::InvalidTimeout(DurationError::InvalidNumber))
    );
    assert_eq!(
        launch(strings(&["", "sleep"])),
        Err(StartError::InvalidTimeout(DurationError::Empty))
    );
    assert_eq!(
        launch(strings(&["10x", "sleep", "1"])),
        Err(StartError::InvalidTimeout(DurationError::UnknownUnit))
    );
}

#[test]
fn launch_splits_command_and_arguments() {
    let plan = launch(strings(&["2m", "sleep", "5", "--now"])).unwrap();
    assert_eq!(plan.timeout, Timeout { millis: 120_000 });
    assert_eq!(plan.command, "sleep");
    assert_eq!(plan.args, strings(&["5", "--now"]));

    let bare = launch(strings(&["1", "true"])).unwrap();
    assert_eq!(bare.timeout.millis, 1_000);
    assert_eq!(bare.command, "true");
    assert!(bare.args.is_empty());
}
