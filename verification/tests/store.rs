use chrono::{DateTime, Datelike, FixedOffset, Local, NaiveDate, Offset, TimeZone};
use screenblocker::store::{
    count_day, tally, timestamp_in_range, EventType, History, Settings, Store, Timestamp, MAX_DAY,
    MIN_DAY, STREAK_MIN_SUCCESS,
};
use std::path::PathBuf;

fn at(y: i32, m: u32, d: u32) -> DateTime<Local> {
    Local.with_ymd_and_hms(y, m, d, 12, 0, 0).unwrap()
}

fn day(y: i32, m: u32, d: u32) -> i64 {
    NaiveDate::from_ymd_opt(y, m, d).unwrap().num_days_from_ce() as i64
}

#[test]
fn aggregates_by_day_with_streak_and_totals() {
    let mut history = History::new();
    let today = at(2026, 7, 19);
    // today: 2 successful, 1 skipped
    history.push_event(today.to_rfc3339(), EventType::Successful);
    history.push_event(today.to_rfc3339(), EventType::Successful);
    history.push_event(today.to_rfc3339(), EventType::Skipped);
    // yesterday: 1 successful
    history.push_event(at(2026, 7, 18).to_rfc3339(), EventType::Successful);
    // 2 days ago: only a meeting notice (breaks the streak, not a break)
    history.push_event(at(2026, 7, 17).to_rfc3339(), EventType::MeetingNotified);
    // 3 days ago: 1 successful (isolated, before the gap)
    history.push_event(at(2026, 7, 16).to_rfc3339(), EventType::Successful);

    let data = history.dashboard_asof(14, today.date_naive().num_days_from_ce() as i64);
    assert_eq!(data.today_successful, 2);
    assert_eq!(data.today_skipped, 1);
    assert_eq!(data.streak, 2, "today + yesterday, broken by the meeting-only day");
    assert_eq!(data.all_time_total, 4, "successful breaks all-time");
    assert_eq!(data.days.len(), 14);
    let last = data.days.last().unwrap();
    assert_eq!(last.date, "2026-07-19");
    assert_eq!(last.successful, 2);
    assert_eq!(last.skipped, 1);
}

#[test]
fn window_is_ascending_and_labelled() {
    let mut history = History::new();
    history.push_event(at(2026, 7, 10).to_rfc3339(), EventType::Skipped);
    let data = history.dashboard_asof(3, day(2026, 7, 11));
    let dates: Vec<&str> = data.days.iter().map(|d| d.date.as_str()).collect();
    assert_eq!(dates, vec!["2026-07-09", "2026-07-10", "2026-07-11"]);
    assert_eq!(data.days[1].skipped, 1);
    assert_eq!(data.days[1].successful, 0);
    assert_eq!(data.days[0].skipped, 0);
    assert_eq!(data.streak, 0);
}

#[test]
fn window_crosses_a_month_and_year_boundary() {
    let data = History::new().dashboard_asof(2, day(2027, 1, 1));
    assert_eq!(data.days[0].date, "2026-12-31");
    assert_eq!(data.days[1].date, "2027-01-01");
}

#[test]
fn unparseable_timestamps_are_left_out() {
    let mut history = History::new();
    history.push_event("yesterday-ish".to_string(), EventType::Successful);
    history.push_event(String::new(), EventType::Successful);
    history.push_event(at(2026, 7, 19).to_rfc3339(), EventType::Successful);
    let data = history.dashboard_asof(1, day(2026, 7, 19));
    assert_eq!(data.all_time_total, 1);
    assert_eq!(data.today_successful, 1);
    assert_eq!(data.streak, 1);
}

#[test]
fn empty_history_and_empty_window() {
    let data = History::new().dashboard_asof(0, day(2026, 7, 19));
    assert_eq!(data.days.len(), 0);
    assert_eq!(data.today_successful, 0);
    assert_eq!(data.today_skipped, 0);
    assert_eq!(data.streak, 0);
    assert_eq!(data.all_time_total, 0);
}

#[test]
fn streak_counts_consecutive_days_ending_today() {
    let t = day(2026, 3, 10);
    let dated = vec![
        (Some(t), EventType::Successful),
        (Some(t - 1), EventType::Successful),
        (Some(t - 1), EventType::Skipped),
        (Some(t - 2), EventType::Successful),
        (Some(t - 4), EventType::Successful),
        (None, EventType::Successful),
    ];
    let data = tally(&dated, 5, t);
    assert_eq!(data.streak, 3);
    assert_eq!(data.all_time_total, 4);
    assert_eq!(data.today_successful, 1);
    assert_eq!(data.days[3].skipped, 1);
    assert_eq!(data.days[0].successful, 1);
    assert_eq!(data.days[1].successful, 0);
    assert_eq!(STREAK_MIN_SUCCESS, 1);
}

#[test]
fn streak_is_zero_without_a_success_today() {
    let t = day(2026, 3, 10);
    let dated = vec![(Some(t), EventType::Skipped), (Some(t - 1), EventType::Successful)];
    assert_eq!(tally(&dated, 1, t).streak, 0);
}

#[test]
fn count_day_counts_one_day_only() {
    let dated = vec![
        (Some(5), EventType::Successful),
        (Some(5), EventType::Skipped),
        (Some(5), EventType::Skipped),
        (Some(6), EventType::Successful),
        (Some(5), EventType::MeetingNotified),
        (None, EventType::Skipped),
    ];
    assert_eq!(count_day(&dated, 5), (1, 2));
    assert_eq!(count_day(&dated, 6), (1, 0));
    assert_eq!(count_day(&dated, 7), (0, 0));
}

#[test]
fn appended_events_keep_their_order() {
    let mut history = History::new();
    history.push_event("a".to_string(), EventType::Skipped);
    history.push_event("b".to_string(), EventType::MeetingNotified);
    assert_eq!(history.events.len(), 2);
    assert_eq!(history.events[0].ts, "a");
    assert_eq!(history.events[1].kind, EventType::MeetingNotified);
}

#[test]
fn day_range_matches_the_calendar() {
    assert_eq!(NaiveDate::MIN.num_days_from_ce() as i64, MIN_DAY);
    assert_eq!(NaiveDate::MAX.num_days_from_ce() as i64, MAX_DAY);
}

#[test]
fn settings_default_values() {
    let s = Settings::default();
    assert_eq!(s.work_minutes, 25);
    assert_eq!(s.break_minutes, 5);
    assert!(s.auto_detect_meetings);
    assert_eq!(s.manual_meeting_override, None);
    assert!(s.start_on_login);
}

#[test]
fn store_keeps_its_paths() {
    let store = Store::with_paths(PathBuf::from("/tmp/h.json"), PathBuf::from("/tmp/s.json"));
    assert_eq!(store.history_path(), &PathBuf::from("/tmp/h.json"));
    assert_eq!(store.settings_path(), &PathBuf::from("/tmp/s.json"));
}

#[test]
fn append_event_at_stamps_the_instant_in_its_offset() {
    let at = FixedOffset::east_opt(5 * 3600 + 1800)
        .unwrap()
        .with_ymd_and_hms(2026, 7, 19, 14, 32, 0)
        .unwrap();
    let stamp = Timestamp {
        secs: at.timestamp(),
        nanos: at.timestamp_subsec_nanos(),
        offset_secs: at.offset().fix().local_minus_utc(),
    };
    assert!(timestamp_in_range(stamp));
    let mut history = History::new();
    history.append_event_at(EventType::Skipped, stamp);
    assert_eq!(history.events.len(), 1);
    assert_eq!(history.events[0].ts, "2026-07-19T14:32:00+05:30");
    assert_eq!(history.events[0].kind, EventType::Skipped);
}

#[test]
fn local_now_is_in_range_and_counts_today() {
    let now = Local::now();
    let stamp = Timestamp {
        secs: now.timestamp(),
        nanos: now.timestamp_subsec_nanos(),
        offset_secs: now.offset().fix().local_minus_utc(),
    };
    assert!(timestamp_in_range(stamp));
    let mut history = History::new();
    history.append_event_at(EventType::Successful, stamp);
    let data = history.dashboard_asof(1, now.date_naive().num_days_from_ce() as i64);
    assert_eq!(data.today_successful, 1);
}

#[test]
fn timestamp_range_edges() {
    let ok = Timestamp { secs: 59, nanos: 1_500_000_000, offset_secs: 0 };
    assert!(timestamp_in_range(ok));
    assert!(!timestamp_in_range(Timestamp { secs: 58, nanos: 1_500_000_000, offset_secs: 0 }));
    assert!(timestamp_in_range(Timestamp { secs: -1, nanos: 1_500_000_000, offset_secs: 0 }));
    assert!(!timestamp_in_range(Timestamp { secs: -2, nanos: 1_500_000_000, offset_secs: 0 }));
    assert!(timestamp_in_range(Timestamp { secs: -1, nanos: 0, offset_secs: -86399 }));
    assert!(!timestamp_in_range(Timestamp { secs: 0, nanos: 0, offset_secs: 86400 }));
    assert!(!timestamp_in_range(Timestamp { secs: i64::MIN, nanos: 0, offset_secs: 0 }));
    assert!(!timestamp_in_range(Timestamp { secs: i64::MAX, nanos: 0, offset_secs: 0 }));
}

#[test]
fn local_day_is_within_a_day_of_the_utc_day() {
    // 23:30 at UTC-10 is the next day in UTC.
    let mut history = History::new();
    history.push_event("2026-07-19T23:30:00-10:00".to_string(), EventType::Successful);
    let utc = day(2026, 7, 20);
    let data = history.dashboard_asof(3, utc + 1);
    let total: u32 = data.days.iter().map(|d| d.successful).sum();
    assert_eq!(total, 1);
}
