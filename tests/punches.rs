use hours::interval::{get_times, total_seconds, Item};
use hours::punch::{reconcile, DEFAULT_TOLERANCE};
use hours::time::Time;
use hours::{TimeStamp, TimeStampType};

fn at(h: u32, m: u32) -> Time {
    Time::from_hms(h, m, 0).unwrap()
}

fn stamp(typ: TimeStampType, h: u32, m: u32) -> TimeStamp {
    TimeStamp { typ, time: at(h, m), tolerance: DEFAULT_TOLERANCE }
}

#[test]
fn empty_day_gets_a_start() {
    let mut day = Vec::new();
    reconcile(&mut day, at(9, 0));
    assert_eq!(day, vec![stamp(TimeStampType::Start, 9, 0)]);
    assert_eq!(day[0].tolerance, 900);
}

#[test]
fn start_is_closed_by_an_end() {
    let mut day = vec![stamp(TimeStampType::Start, 9, 0)];
    reconcile(&mut day, at(9, 5));
    assert_eq!(day.len(), 2);
    assert_eq!(day[1], stamp(TimeStampType::End, 9, 5));
}

#[test]
fn punch_within_tolerance_moves_the_end() {
    let mut day = vec![stamp(TimeStampType::Start, 9, 0), stamp(TimeStampType::End, 12, 0)];
    reconcile(&mut day, at(12, 10));
    assert_eq!(day, vec![stamp(TimeStampType::Start, 9, 0), stamp(TimeStampType::End, 12, 10)]);
}

#[test]
fn punch_at_the_edge_of_tolerance_still_merges() {
    let mut day = vec![stamp(TimeStampType::Start, 9, 0), stamp(TimeStampType::End, 12, 0)];
    reconcile(&mut day, at(12, 15));
    assert_eq!(day.len(), 2);
    assert_eq!(day[1].time, at(12, 15));
    assert_eq!(day[1].typ, TimeStampType::End);
}

#[test]
fn punch_beyond_tolerance_starts_anew() {
    let mut day = vec![stamp(TimeStampType::Start, 9, 0), stamp(TimeStampType::End, 12, 0)];
    reconcile(&mut day, Time::from_hms(12, 15, 1).unwrap());
    assert_eq!(day.len(), 3);
    assert_eq!(day[2].typ, TimeStampType::Start);
}

#[test]
fn tolerance_is_per_punch() {
    let mut day = vec![
        stamp(TimeStampType::Start, 9, 0),
        TimeStamp { typ: TimeStampType::End, time: at(12, 0), tolerance: 0 },
    ];
    reconcile(&mut day, Time::from_hms(12, 0, 1).unwrap());
    assert_eq!(day.len(), 3);
    assert_eq!(day[2].typ, TimeStampType::Start);
}

#[test]
fn repeated_punches_alternate() {
    let mut day = Vec::new();
    for (h, m) in [(8, 0), (10, 0), (10, 5), (13, 0), (17, 0), (18, 0)] {
        reconcile(&mut day, at(h, m));
    }
    let kinds: Vec<TimeStampType> = day.iter().map(|p| p.typ).collect();
    assert_eq!(
        kinds,
        vec![TimeStampType::Start, TimeStampType::End, TimeStampType::Start, TimeStampType::End, TimeStampType::Start]
    );
    assert_eq!(day[1].time, at(10, 5));
}

#[test]
fn two_intervals_and_their_total() {
    let day = vec![
        stamp(TimeStampType::Start, 9, 0),
        stamp(TimeStampType::End, 12, 0),
        stamp(TimeStampType::Start, 13, 0),
        stamp(TimeStampType::End, 17, 0),
    ];
    let (items, open) = get_times(&day);
    assert_eq!(
        items,
        vec![Item { start: at(9, 0), end: at(12, 0) }, Item { start: at(13, 0), end: at(17, 0) }]
    );
    assert_eq!(open, None);
    assert_eq!(total_seconds(&items), 7 * 3600);
}

#[test]
fn lone_start_is_open() {
    let day = vec![stamp(TimeStampType::Start, 9, 0)];
    let (items, open) = get_times(&day);
    assert!(items.is_empty());
    assert_eq!(open, Some(at(9, 0)));
    assert_eq!(total_seconds(&items), 0);
}

#[test]
fn leading_end_is_skipped() {
    let day = vec![
        stamp(TimeStampType::End, 8, 0),
        stamp(TimeStampType::Start, 9, 0),
        stamp(TimeStampType::End, 10, 0),
    ];
    let (items, open) = get_times(&day);
    assert_eq!(items, vec![Item { start: at(9, 0), end: at(10, 0) }]);
    assert_eq!(open, None);
}

#[test]
fn latest_start_opens_the_interval() {
    let day = vec![
        stamp(TimeStampType::Start, 8, 0),
        stamp(TimeStampType::Start, 9, 0),
        stamp(TimeStampType::End, 10, 0),
        stamp(TimeStampType::End, 11, 0),
        stamp(TimeStampType::Start, 12, 0),
    ];
    let (items, open) = get_times(&day);
    assert_eq!(items, vec![Item { start: at(9, 0), end: at(10, 0) }]);
    assert_eq!(open, Some(at(12, 0)));
}

#[test]
fn backwards_interval_gives_negative_total() {
    let items = vec![Item { start: at(10, 0), end: at(9, 0) }];
    assert_eq!(items[0].duration(), -3600);
    assert_eq!(total_seconds(&items), -3600);
}
