use talaria::utilities::time_range::{
    timestamp_secs, TimeRange, MAX_UTC_MILLIS, MILLIS_PER_MINUTE, MIN_UTC_MILLIS,
};

#[test]
fn new_refuses_windows_above_500_minutes() {
    assert_eq!(TimeRange::new(0, 10, 501).unwrap_err(), "Max interval size is 500.");
    let tr = TimeRange::new(0, 10, 500).unwrap();
    assert_eq!(tr.interval_size, 500 * MILLIS_PER_MINUTE);
}

#[test]
fn windows_tile_the_range() {
    let minute = MILLIS_PER_MINUTE;
    let tr = TimeRange::new(0, 25 * minute, 10).unwrap();
    let windows = tr.sub_ranges();
    let bounds: Vec<(i64, i64)> = windows.iter().map(|w| (w.start, w.end)).collect();
    assert_eq!(bounds, vec![(0, 10 * minute), (10 * minute, 20 * minute), (20 * minute, 25 * minute)]);
}

#[test]
fn next_walks_and_stops() {
    let mut tr = TimeRange::new(1000, 2000, 0).unwrap();
    tr.interval_size = 600;
    let a = tr.next().unwrap();
    assert_eq!((a.start, a.end), (1000, 1600));
    let b = tr.next().unwrap();
    assert_eq!((b.start, b.end), (1600, 2000));
    assert!(tr.next().is_none());
    assert_eq!(tr.start, 2000);
}

#[test]
fn empty_range_has_no_windows() {
    let tr = TimeRange::new(5, 5, 1).unwrap();
    assert!(tr.sub_ranges().is_empty());
}

#[test]
fn default_covers_a_week() {
    let tr = TimeRange::default().unwrap();
    assert_eq!(tr.end - tr.start, 7 * 24 * 60 * 60 * 1000);
    assert_eq!(tr.interval_size, 300 * MILLIS_PER_MINUTE);
    assert_eq!(tr.sub_ranges().len(), 34);
}

#[test]
fn seconds_round_down() {
    assert_eq!(timestamp_secs(1999), 1);
    assert_eq!(timestamp_secs(-1), -1);
    assert_eq!(timestamp_secs(-1000), -1);
    assert_eq!(timestamp_secs(-1001), -2);
}

#[test]
fn default_at_is_the_week_up_to_now() {
    let now = 1_700_000_000_000;
    let tr = TimeRange::default_at(now).unwrap();
    assert_eq!((tr.start, tr.end), (now - 604_800_000, now));
    assert_eq!(tr.interval_size, 300 * MILLIS_PER_MINUTE);
    let windows = tr.sub_ranges();
    assert_eq!(windows.len(), 34);
    assert_eq!(windows[33].end - windows[33].start, 180 * MILLIS_PER_MINUTE);
    assert!(TimeRange::default_at(MIN_UTC_MILLIS + 604_799_999).is_none());
    assert!(TimeRange::default_at(MIN_UTC_MILLIS + 604_800_000).is_some());
}

#[test]
fn repeated_next_yields_window_count_times() {
    let mut tr = TimeRange::new(0, 25 * MILLIS_PER_MINUTE, 10).unwrap();
    let mut count = 0;
    while tr.next().is_some() {
        count += 1;
    }
    assert_eq!(count, 3);
    assert!(tr.next().is_none());
}

#[test]
fn non_positive_window_walks_backwards_forever() {
    let mut tr = TimeRange::new(1000, 2000, -1).unwrap();
    for k in 1..=5 {
        let w = tr.next().unwrap();
        assert_eq!(w.end, 1000 - k * MILLIS_PER_MINUTE);
    }
}

#[test]
fn checked_windows_match_sub_ranges() {
    let minute = MILLIS_PER_MINUTE;
    let tr = TimeRange::new(0, 25 * minute, 10).unwrap();
    let checked = tr.checked_sub_ranges().unwrap();
    let plain = tr.sub_ranges();
    let a: Vec<(i64, i64, i64)> = checked.iter().map(|w| (w.start, w.end, w.interval_size)).collect();
    let b: Vec<(i64, i64, i64)> = plain.iter().map(|w| (w.start, w.end, w.interval_size)).collect();
    assert_eq!(a, b);
    assert_eq!(a.len(), 3);
}

#[test]
fn checked_windows_refuse_a_range_that_cannot_be_walked() {
    let zero = TimeRange { start: 0, end: 10, interval_size: 0 };
    assert!(zero.checked_sub_ranges().is_none());
    let beyond = TimeRange { start: MAX_UTC_MILLIS - 5, end: MAX_UTC_MILLIS, interval_size: 10 };
    assert!(beyond.checked_sub_ranges().is_none());
    let empty = TimeRange { start: 10, end: 10, interval_size: 0 };
    assert!(empty.checked_sub_ranges().is_none());
    let empty_walk = TimeRange { start: 10, end: 10, interval_size: 3 };
    assert_eq!(empty_walk.checked_sub_ranges().unwrap().len(), 0);
}
