use wildlife_sim::time_control::TimeController;

#[test]
fn zero_seconds() {
    assert_eq!(TimeController::seconds_to_formatted(0), (0, 0, 0, 0, 0));
}

#[test]
fn only_seconds() {
    // less than a minute
    assert_eq!(TimeController::seconds_to_formatted(45), (0, 0, 0, 0, 45));
}

#[test]
fn exactly_one_minute() {
    assert_eq!(TimeController::seconds_to_formatted(60), (0, 0, 0, 1, 0));
}

#[test]
fn minutes_and_seconds() {
    // 2 minutes, 30 seconds
    assert_eq!(
        TimeController::seconds_to_formatted(2 * 60 + 30),
        (0, 0, 0, 2, 30)
    );
}

#[test]
fn exactly_one_hour() {
    assert_eq!(
        TimeController::seconds_to_formatted(60 * 60),
        (0, 0, 1, 0, 0)
    );
}

#[test]
fn hours_minutes_seconds() {
    // 1h 15m 20s
    let secs = 1 * 3600 + 15 * 60 + 20;
    assert_eq!(
        TimeController::seconds_to_formatted(secs),
        (0, 0, 1, 15, 20)
    );
}

#[test]
fn exactly_one_day() {
    assert_eq!(
        TimeController::seconds_to_formatted(24 * 3600),
        (0, 1, 0, 0, 0)
    );
}

#[test]
fn days_hours_minutes_seconds() {
    // 3d 4h 5m 6s
    let secs = 3 * 86400 + 4 * 3600 + 5 * 60 + 6;
    assert_eq!(TimeController::seconds_to_formatted(secs), (0, 3, 4, 5, 6));
}

#[test]
fn exactly_one_year() {
    // 1 year = 365 days
    assert_eq!(
        TimeController::seconds_to_formatted(365 * 86400),
        (1, 0, 0, 0, 0)
    );
}

#[test]
fn full_combination() {
    // 2y 10d 6h 30m 15s
    let secs = 2 * 365 * 86400 + 10 * 86400 + 6 * 3600 + 30 * 60 + 15;
    assert_eq!(
        TimeController::seconds_to_formatted(secs),
        (2, 10, 6, 30, 15)
    );
}

#[test]
fn days_overflow() {
    // 300 days worth of seconds:
    let secs = 300 * 24 * 3600;
    let (years, days, hours, minutes, seconds) = TimeController::seconds_to_formatted(secs);

    // We expect 0 years, 300 days, 0h 0m 0s:
    assert_eq!(years, 0);
    assert_eq!(days, 300);
    assert_eq!(hours, 0);
    assert_eq!(minutes, 0);
    assert_eq!(seconds, 0);
}

#[test]
fn large_number_of_seconds() {
    // arbitrary large number
    let secs = 1234567890;
    let (y, d, h, m, s) = TimeController::seconds_to_formatted(secs);
    // sanity-check by recomposing
    let recomposed =
        y as u64 * 365 * 86400 + d as u64 * 86400 + h as u64 * 3600 + m as u64 * 60 + s as u64;
    assert_eq!(recomposed, secs);
}

#[test]
fn largest_number_of_seconds_recomposes() {
    let (y, d, h, m, s) = TimeController::seconds_to_formatted(u64::MAX);
    let recomposed = y as u128 * 365 * 86400
        + d as u128 * 86400
        + h as u128 * 3600
        + m as u128 * 60
        + s as u128;
    assert_eq!(recomposed, u64::MAX as u128);
    assert!(d < 365 && h < 24 && m < 60 && s < 60);
}

#[test]
fn last_second_of_a_year() {
    assert_eq!(
        TimeController::seconds_to_formatted(365 * 86400 - 1),
        (0, 364, 23, 59, 59)
    );
}

#[test]
fn formatted_string_pads_all_but_the_years() {
    assert_eq!(
        TimeController::formatted_string(2, 10, 6, 30, 15),
        "2 years, 10 days, 06 hours, 30 minutes, 15 seconds"
    );
    assert_eq!(
        TimeController::formatted_string(0, 0, 0, 0, 0),
        "0 years, 00 days, 00 hours, 00 minutes, 00 seconds"
    );
    assert_eq!(
        TimeController::formatted_string(1234, 364, 23, 59, 59),
        "1234 years, 364 days, 23 hours, 59 minutes, 59 seconds"
    );
}

#[test]
fn formatted_string_writes_wide_parts_in_full() {
    assert_eq!(
        TimeController::formatted_string(u64::MAX, 65535, 255, 100, 7),
        "18446744073709551615 years, 65535 days, 255 hours, 100 minutes, 07 seconds"
    );
}
