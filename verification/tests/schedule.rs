use eat_ou::Day;
use eat_ou::Hours;
use eat_ou::HoursMap;
use eat_ou::Restaurant;
use eat_ou::Time;

fn nine_to_five() -> Hours {
    Hours::new(Time::new(9, 0), Time::new(17, 0))
}

fn open_on(day: Day, hours: Hours) -> Restaurant {
    Restaurant::new(
        String::from("Example"),
        HoursMap::closed_all_week().with_day(day, Some(hours)),
    )
}

#[test]
fn day_from_index() {
    assert_eq!(Day::from(0), Day::Sunday);
    assert_eq!(Day::from(3), Day::Wednesday);
    assert_eq!(Day::from(6), Day::Saturday);
    // Out-of-range indices clamp to Saturday.
    assert_eq!(Day::from(9), Day::Saturday);
    assert_eq!(Day::from(-1), Day::Saturday);
}

#[test]
fn hours_display_window() {
    let label = nine_to_five().to_display();
    assert_eq!(label, "9:00 AM\u{2013}5:00 PM");
}

#[test]
fn hours_display_open_24() {
    // Equal formatted endpoints read as open around the clock, even when
    // the raw values differ (0:00 and 24:00 both show as 12:00 AM).
    let h = Hours::new(Time::new(0, 0), Time::new(24, 0));
    assert_eq!(h.to_display(), "Open 24 hours");
}

#[test]
fn get_hours_and_is_open() {
    let r = open_on(Day::Monday, nine_to_five());
    assert!(r.is_open(Day::Monday));
    assert!(!r.is_open(Day::Tuesday));
    let h = r.get_hours(Day::Monday).unwrap();
    assert_eq!(h.start, Time::new(9, 0));
    assert_eq!(h.end, Time::new(17, 0));
    assert!(r.get_hours(Day::Sunday).is_none());
}

#[test]
fn closed_day_never_viable() {
    let r = Restaurant::new(String::from("Closed"), HoursMap::closed_all_week());
    assert!(!r.is_viable(Day::Monday, Time::new(12, 0)));
    assert!(!r.is_viable(Day::Saturday, Time::new(0, 0)));
    assert!(!r.is_viable(Day::Sunday, Time::new(23, 59)));
}

#[test]
fn viable_within_hours() {
    let r = open_on(Day::Friday, nine_to_five());
    assert!(r.is_viable(Day::Friday, Time::new(12, 0)));
    assert!(!r.is_viable(Day::Friday, Time::new(8, 0)));
    assert!(!r.is_viable(Day::Thursday, Time::new(12, 0)));
}

#[test]
fn viable_closing_boundary() {
    let r = open_on(Day::Monday, nine_to_five());
    // 16:49 plus the 10-minute buffer is 16:59, inside the window.
    assert!(r.is_viable(Day::Monday, Time::new(16, 49)));
    // 16:50 plus the buffer lands on a minute total of exactly 60, which
    // add_minutes keeps as 16:60 rather than carrying to 17:00 — still
    // before the closing time, so the restaurant stays viable one minute
    // longer than normalized arithmetic would allow.
    assert!(r.is_viable(Day::Monday, Time::new(16, 50)));
    // 16:51 plus the buffer carries to 17:01, past the closing time.
    assert!(!r.is_viable(Day::Monday, Time::new(16, 51)));
}

#[test]
fn closing_exactly_at_buffered_time_is_not_viable() {
    // A window whose end equals the buffered query time exactly: with the
    // un-carried minute total, 16:50 plus the buffer is 16:60, so an end
    // of 16:60 is a tie — and the interval is strictly open, so the tie
    // is excluded.
    let r = open_on(Day::Monday, Hours::new(Time::new(9, 0), Time::new(16, 60)));
    assert!(!r.is_viable(Day::Monday, Time::new(16, 50)));
    assert!(r.is_viable(Day::Monday, Time::new(16, 49)));
}

#[test]
fn viable_opening_boundary() {
    let r = open_on(Day::Monday, nine_to_five());
    // The interval is open at the start as well: the buffered time must
    // lie strictly after the opening time.
    assert!(!r.is_viable(Day::Monday, Time::new(8, 50)));
    assert!(r.is_viable(Day::Monday, Time::new(8, 51)));
}
