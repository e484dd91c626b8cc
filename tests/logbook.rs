use hours::punch::DEFAULT_TOLERANCE;
use hours::report::{report_day, show, ShowError};
use hours::time::{Date, Time};
use hours::{Entry, Log, Project, Record, TimeStamp, TimeStampType};

fn at(h: u32, m: u32) -> Time {
    Time::from_hms(h, m, 0).unwrap()
}

fn stamp(typ: TimeStampType, h: u32, m: u32) -> TimeStamp {
    TimeStamp { typ, time: at(h, m), tolerance: DEFAULT_TOLERANCE }
}

fn day(d: u32) -> Date {
    Date::new(2024, 3, d).unwrap()
}

#[test]
fn days_are_kept_in_date_order() {
    let mut p = Project::new();
    p.set_day(day(3), vec![stamp(TimeStampType::Start, 9, 0)]);
    p.set_day(day(1), vec![stamp(TimeStampType::Start, 8, 0)]);
    p.set_day(day(2), vec![]);
    p.set_day(day(1), vec![stamp(TimeStampType::Start, 7, 0)]);
    let dates: Vec<Date> = p.entries.iter().map(|e| e.date).collect();
    assert_eq!(dates, vec![day(1), day(2), day(3)]);
    assert_eq!(p.day(day(1)), vec![stamp(TimeStampType::Start, 7, 0)]);
    assert!(p.day(day(9)).is_empty());
}

#[test]
fn recording_creates_project_and_day() {
    let mut r = Record { log: Log::new(), date: day(1), time: at(9, 0) };
    r.insert(String::new());
    r.time = at(12, 0);
    r.insert(String::new());
    r.time = at(12, 5);
    r.insert(String::new());
    r.time = at(13, 0);
    r.insert("acme".to_string());
    let default = r.log.get("").unwrap();
    assert_eq!(default.day(day(1)), vec![stamp(TimeStampType::Start, 9, 0), stamp(TimeStampType::End, 12, 5)]);
    let acme = r.log.get("acme").unwrap();
    assert_eq!(acme.day(day(1)), vec![stamp(TimeStampType::Start, 13, 0)]);
    assert_eq!(r.log.projects.len(), 2);
}

#[test]
fn opening_reads_a_valid_clock() {
    let r = Record::open(Log::new());
    assert!(r.date.month >= 1 && r.date.month <= 12);
    assert!(r.date.year >= 2000);
    assert!(r.time.secs < 86400);
    assert!(r.log.projects.is_empty());
}

fn sample_log() -> Log {
    let mut log = Log::new();
    log.set_day(
        "acme".to_string(),
        day(2),
        vec![stamp(TimeStampType::Start, 13, 0)],
    );
    log.set_day(
        "acme".to_string(),
        day(1),
        vec![
            stamp(TimeStampType::Start, 9, 0),
            stamp(TimeStampType::End, 12, 0),
            stamp(TimeStampType::Start, 13, 0),
            stamp(TimeStampType::End, 14, 30),
        ],
    );
    log.set_day("acme".to_string(), day(3), vec![stamp(TimeStampType::End, 8, 0)]);
    log
}

#[test]
fn report_of_a_project() {
    let lines = show(&sample_log(), "acme", false).unwrap();
    assert_eq!(
        lines,
        vec![
            "2024-03-01 (4h30min):",
            "  - 09:00 - 12:00",
            "  - 13:00 - 14:30",
            "2024-03-02 (0min):",
            "  - 13:00 - ",
        ]
    );
}

#[test]
fn report_in_decimal_hours() {
    let lines = show(&sample_log(), "acme", true).unwrap();
    assert_eq!(lines[0], "2024-03-01 (4.50):");
    assert_eq!(lines[3], "2024-03-02 (0.00):");
}

#[test]
fn report_of_missing_project() {
    assert_eq!(show(&sample_log(), "other", false), Err(ShowError::ProjectNotFound));
    assert_eq!(show(&Log::new(), "", true), Err(ShowError::ProjectNotFound));
}

#[test]
fn day_without_start_reports_nothing() {
    let e = Entry { date: day(3), timestamps: vec![stamp(TimeStampType::End, 8, 0)] };
    assert!(report_day(&e, false).is_empty());
    let e = Entry { date: day(4), timestamps: vec![] };
    assert!(report_day(&e, true).is_empty());
}
