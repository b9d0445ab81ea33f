use eat_ou::FromStrError;
use eat_ou::Time;

#[test]
fn parse_valid_time() {
    let t = Time::from_str("13:05").unwrap();
    assert_eq!(t, Time::new(13, 5));
    assert_eq!(t.hours, 13);
    assert_eq!(t.minutes, 5);
}

#[test]
fn parse_zero_padded() {
    let t = Time::from_str("09:00").unwrap();
    assert_eq!(t, Time::new(9, 0));
}

#[test]
fn parse_missing_colon() {
    assert!(matches!(Time::from_str("1305"), Err(FromStrError::MissingColon)));
    assert!(matches!(Time::from_str(""), Err(FromStrError::MissingColon)));
}

#[test]
fn parse_extra_components() {
    assert!(matches!(Time::from_str("1:02:03"), Err(FromStrError::ExtraComponents)));
    assert!(matches!(Time::from_str("::"), Err(FromStrError::ExtraComponents)));
}

#[test]
fn parse_lenient_components() {
    // Non-numeric components read as 0 rather than failing.
    let t = Time::from_str("ab:cd").unwrap();
    assert_eq!(t, Time::new(0, 0));
    // A component too large for a byte also reads as 0.
    let t = Time::from_str("999:07").unwrap();
    assert_eq!(t, Time::new(0, 7));
    // Empty components read as 0.
    let t = Time::from_str(":30").unwrap();
    assert_eq!(t, Time::new(0, 30));
}

#[test]
fn error_message() {
    assert_eq!(FromStrError::Generic.message(), "Invalid time string.");
    assert_eq!(FromStrError::MissingColon.message(), "Invalid time string.");
}

#[test]
fn display_round_trip() {
    // Parsing then formatting lands on the fixed 12-hour display.
    assert_eq!(Time::from_str("13:05").unwrap().to_display(), "1:05 PM");
    assert_eq!(Time::from_str("09:00").unwrap().to_display(), "9:00 AM");
    assert_eq!(Time::from_str("23:59").unwrap().to_display(), "11:59 PM");
}

#[test]
fn display_edge_hours() {
    assert_eq!(Time::new(0, 0).to_display(), "12:00 AM");
    assert_eq!(Time::new(12, 30).to_display(), "12:30 PM");
    // Hours past the first midnight reduce by 24 before the 12-hour fold.
    assert_eq!(Time::new(25, 15).to_display(), "1:15 AM");
    assert_eq!(Time::new(47, 59).to_display(), "11:59 PM");
    // 24 itself is not reduced (only hours above 24 are), so it folds to
    // 12 with the meridiem toggled back.
    assert_eq!(Time::new(24, 5).to_display(), "12:05 AM");
}

#[test]
fn add_minutes_carry_boundary() {
    // A minute total of exactly 60 is kept, not carried.
    let t = Time::new(1, 59).add_minutes(1);
    assert_eq!(t.hours, 1);
    assert_eq!(t.minutes, 60);
    // One past 60 carries into the hours.
    let t = Time::new(1, 59).add_minutes(2);
    assert_eq!(t.hours, 2);
    assert_eq!(t.minutes, 1);
}

#[test]
fn add_minutes_wraps_at_48_hours() {
    let t = Time::new(47, 55).add_minutes(10);
    assert_eq!(t.hours, 0);
    assert_eq!(t.minutes, 5);
    // The hours value never leaves [0, 47].
    let t = Time::new(47, 59).add_minutes(255);
    assert!(t.hours <= 47);
}

#[test]
fn difference_is_signed() {
    assert_eq!(Time::new(2, 30).difference(Time::new(1, 45)), 45);
    assert_eq!(Time::new(17, 0).difference(Time::new(9, 0)), 480);
    // Out-of-order operands give a negative span, not an underflow.
    assert_eq!(Time::new(1, 0).difference(Time::new(2, 30)), -90);
}

#[test]
fn ordering_is_lexicographic() {
    assert!(Time::new(9, 0) < Time::new(17, 0));
    assert!(Time::new(9, 30) > Time::new(9, 15));
    assert!(Time::new(9, 30) == Time::new(9, 30));
    // Times past midnight are not normalized before comparing.
    assert!(Time::new(25, 0) > Time::new(1, 0));
    assert!(Time::new(25, 0) != Time::new(1, 0));
}
