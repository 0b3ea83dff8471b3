use circadian::wtime::{
    idle_from_w_output, parse_w_time, parse_w_time_checked, w_time_total_exec, WTimeFormat,
};

#[test]
fn parse_w_time_seconds_with_fraction() {
    assert_eq!(parse_w_time("10.45s").ok(), Some(10));
}

#[test]
fn parse_w_time_minutes_and_seconds() {
    assert_eq!(parse_w_time("1:11").ok(), Some(71));
}

#[test]
fn parse_w_time_hours_and_minutes() {
    assert_eq!(parse_w_time("0:10m").ok(), Some(600));
    assert_eq!(parse_w_time("2:03m").ok(), Some(7380));
}

#[test]
fn parse_w_time_rejects_other_forms() {
    let e = parse_w_time("2days").err().unwrap();
    assert_eq!(e.description(), "Invalid idle format");
    assert!(parse_w_time("").is_err());
    assert!(parse_w_time("12").is_err());
}

#[test]
fn parse_w_time_checked_overflow() {
    assert!(parse_w_time_checked("100000000:00").is_none());
    assert!(parse_w_time_checked("2000000:00m").is_none());
    assert_eq!(parse_w_time_checked("2000000:00").unwrap().ok(), Some(120000000));
    assert_eq!(parse_w_time_checked("5:07").unwrap().ok(), Some(307));
}

#[test]
fn parse_w_time_unparsable_digits_count_zero() {
    // The pattern's `.` matches any character, so "12s34s" has the first
    // form; after trimming and splitting, "12s34" is no number.
    assert_eq!(parse_w_time("12s34s").ok(), Some(0));
}

#[test]
fn idle_from_w_output_takes_least() {
    let out = b"1:11\n10.45s\n\n0:10m\n".to_vec();
    assert_eq!(idle_from_w_output(out), Some(10));
}

#[test]
fn idle_from_w_output_skips_bad_lines() {
    let out = b"junk\n3:00\n".to_vec();
    assert_eq!(idle_from_w_output(out), Some(180));
}

#[test]
fn idle_from_w_output_empty_is_max() {
    assert_eq!(idle_from_w_output(Vec::new()), Some(u32::MAX));
    assert_eq!(idle_from_w_output(vec![0xff, 0xfe, b'\n']), Some(u32::MAX));
}

#[test]
fn idle_from_w_output_overflow() {
    assert_eq!(idle_from_w_output(b"1:00\n100000000:00\n".to_vec()), None);
}

#[test]
fn w_time_totals_by_form() {
    let c: Vec<char> = "3:07".chars().collect();
    assert_eq!(w_time_total_exec(&c, WTimeFormat::MinutesSeconds), 187);
    let c: Vec<char> = "3:07m".chars().collect();
    assert_eq!(w_time_total_exec(&c, WTimeFormat::HoursMinutes), 11220);
    let c: Vec<char> = "12.99s".chars().collect();
    assert_eq!(w_time_total_exec(&c, WTimeFormat::Seconds), 12);
}
