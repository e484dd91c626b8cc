use hours::format::{decimal_hours, human, FormatError};
use hours::time::{Date, Time};
use hours::Formatter;

#[test]
fn human_ninety_minutes() {
    assert_eq!(human(90 * 60), "1h30min");
}

#[test]
fn human_without_hours() {
    assert_eq!(human(45 * 60), "45min");
    assert_eq!(human(0), "0min");
    assert_eq!(human(59), "0min");
}

#[test]
fn human_negative_span() {
    assert_eq!(human(-90 * 60), "-1h-30min");
}

#[test]
fn decimal_renderings() {
    assert_eq!(decimal_hours(90 * 60), "1.50");
    assert_eq!(decimal_hours(45 * 60), "0.75");
    assert_eq!(decimal_hours(0), "0.00");
    assert_eq!(decimal_hours(60), "0.02");
    assert_eq!(decimal_hours(2 * 60), "0.03");
    assert_eq!(decimal_hours(-45 * 60), "-0.75");
    assert_eq!(decimal_hours(7 * 3600), "7.00");
}

fn march_first() -> Date {
    Date::new(2024, 3, 1).unwrap()
}

#[test]
fn template_with_every_kind_of_value() {
    let f = Formatter { date: march_first(), duration: 90 * 60, format: "%d %P: %h h %m m (%t)", project: "acme" };
    assert_eq!(f.render().unwrap(), "2024-03-01 acme: 1 h 90 m (1.50)");
}

#[test]
fn template_date_parts_and_percent() {
    let f = Formatter { date: march_first(), duration: 0, format: "%Y/%M/%D 100%%", project: "" };
    assert_eq!(f.render().unwrap(), "2024/03/01 100%");
}

#[test]
fn template_keeps_other_characters() {
    let f = Formatter { date: march_first(), duration: 0, format: "héllo", project: "x" };
    assert_eq!(f.render().unwrap(), "héllo");
}

#[test]
fn template_unknown_directive() {
    let f = Formatter { date: march_first(), duration: 0, format: "%d %x", project: "" };
    assert_eq!(f.render(), Err(FormatError::UnknownDirective));
}

#[test]
fn template_trailing_percent() {
    let f = Formatter { date: march_first(), duration: 0, format: "total %", project: "" };
    assert_eq!(f.render(), Err(FormatError::UnknownDirective));
}

#[test]
fn dates_are_checked() {
    assert!(Date::new(2023, 2, 29).is_none());
    assert!(Date::new(2024, 2, 29).is_some());
    assert!(Date::new(1900, 2, 29).is_none());
    assert!(Date::new(2000, 2, 29).is_some());
    assert!(Date::new(2024, 4, 31).is_none());
    assert!(Date::new(2024, 13, 1).is_none());
    assert!(Date::new(2024, 1, 0).is_none());
}

#[test]
fn date_text_forms() {
    assert_eq!(march_first().to_string(), "2024-03-01");
    assert_eq!(Date::new(12345, 1, 2).unwrap().to_string(), "+12345-01-02");
    assert_eq!(Date::new(-7, 1, 2).unwrap().to_string(), "-0007-01-02");
    assert_eq!(Date::new(33, 11, 20).unwrap().to_string(), "0033-11-20");
}

#[test]
fn date_order() {
    assert!(march_first().is_before(&Date::new(2024, 3, 2).unwrap()));
    assert!(Date::new(2023, 12, 31).unwrap().is_before(&march_first()));
    assert!(!march_first().is_before(&march_first()));
}

#[test]
fn time_text_form() {
    assert_eq!(Time::from_hms(9, 5, 59).unwrap().to_string(), "09:05");
    assert_eq!(Time::from_hms(23, 59, 0).unwrap().to_string(), "23:59");
    assert!(Time::from_hms(24, 0, 0).is_none());
    assert_eq!(Time::from_hms(1, 2, 3).unwrap().secs, 3723);
}
