//! Settings, the append-only break-history log, and the dashboard
//! aggregation over that log. Reading and writing the JSON files happens
//! outside the library; this module holds the data and the computations.

use chrono::Datelike;
use chrono::DateTime;
use chrono::FixedOffset;
use chrono::Local;
use chrono::NaiveDate;
use std::path::PathBuf;
use vstd::prelude::*;

verus! {

#[verifier::external_type_specification]
#[verifier::external_body]
pub struct ExPathBuf(PathBuf);

/// Minimum successful breaks in a day for it to count toward the streak.
pub const STREAK_MIN_SUCCESS: u32 = 1;

/// Day number (days from the common era, 1 January of year 1 being day 1) of
/// the first date the calendar can represent.
pub const MIN_DAY: i64 = -95746129;

/// Day number of the last date the calendar can represent.
pub const MAX_DAY: i64 = 95745399;

/// The kind of a logged break event.
#[derive(Debug, Clone, Copy, PartialEq, Eq, Structural)]
pub enum EventType {
    Successful,
    Skipped,
    MeetingNotified,
}

/// One entry of the history log: an RFC 3339 timestamp and what happened.
#[derive(Debug, Clone)]
pub struct Event {
    pub ts: String,
    pub kind: EventType,
}

/// The append-only history log.
#[derive(Debug, Clone)]
pub struct History {
    pub events: Vec<Event>,
}

impl History {
    /// An empty log.
    pub fn new() -> (h: History)
        ensures
            h.events@.len() == 0,
    {
        History { events: Vec::new() }
    }

    /// Append one event at the end of the log.
    pub fn push_event(&mut self, ts: String, kind: EventType)
        ensures
            final(self).events@ == old(self).events@.push(Event { ts, kind }),
    {
        self.events.push(Event { ts, kind });
    }
}

/// User settings.
#[derive(Debug, Clone, Copy, PartialEq, Eq, Structural)]
pub struct Settings {
    pub work_minutes: u32,
    pub break_minutes: u32,
    pub auto_detect_meetings: bool,
    /// `None` = follow auto-detect; `Some(true/false)` = forced on/off.
    pub manual_meeting_override: Option<bool>,
    pub start_on_login: bool,
}

impl Settings {
    /// The settings of a first run.
    pub open spec fn defaults() -> Settings {
        Settings {
            work_minutes: 25,
            break_minutes: 5,
            auto_detect_meetings: true,
            manual_meeting_override: Option::None,
            start_on_login: true,
        }
    }
}

impl Default for Settings {
    fn default() -> (s: Settings)
        ensures
            s == Settings::defaults(),
    {
        Settings {
            work_minutes: 25,
            break_minutes: 5,
            auto_detect_meetings: true,
            manual_meeting_override: None,
            start_on_login: true,
        }
    }
}

/// The counts of one calendar day.
#[derive(Debug, Clone)]
pub struct DayCount {
    /// The day as `YYYY-MM-DD`.
    pub date: String,
    pub successful: u32,
    pub skipped: u32,
}

/// What the dashboard shows.
#[derive(Debug, Clone)]
pub struct DashboardData {
    pub today_successful: u32,
    pub today_skipped: u32,
    pub streak: u32,
    pub all_time_total: u32,
    pub days: Vec<DayCount>,
}

/// Where the history log and the settings live.
pub struct Store {
    history_path: PathBuf,
    settings_path: PathBuf,
}

impl Store {
    /// The file of the history log.
    pub closed spec fn history_file(&self) -> PathBuf {
        self.history_path
    }

    /// The file of the settings.
    pub closed spec fn settings_file(&self) -> PathBuf {
        self.settings_path
    }

    /// A store at explicit paths.
    pub fn with_paths(history: PathBuf, settings: PathBuf) -> (s: Store)
        ensures
            s.history_file() == history,
            s.settings_file() == settings,
    {
        Store { history_path: history, settings_path: settings }
    }

    /// The file of the history log.
    pub fn history_path(&self) -> (p: &PathBuf)
        ensures
            *p == self.history_file(),
    {
        &self.history_path
    }

    /// The file of the settings.
    pub fn settings_path(&self) -> (p: &PathBuf)
        ensures
            *p == self.settings_file(),
    {
        &self.settings_path
    }
}

/// An event reduced to what the aggregation reads: its local calendar day
/// (`None` when its timestamp does not parse) and its kind.
pub type DatedEvent = (Option<i64>, EventType);

/// Number of events of `kind` on day `day`.
pub open spec fn count_on(evs: Seq<DatedEvent>, day: int, kind: EventType) -> nat
    decreases evs.len(),
{
    if evs.len() == 0 {
        0
    } else {
        count_on(evs.drop_last(), day, kind) + if (evs.last().0 matches Option::Some(d) && d == day)
            && evs.last().1 == kind {
            1nat
        } else {
            0nat
        }
    }
}

/// Number of events of `kind` whose day is known.
pub open spec fn count_dated(evs: Seq<DatedEvent>, kind: EventType) -> nat
    decreases evs.len(),
{
    if evs.len() == 0 {
        0
    } else {
        count_dated(evs.drop_last(), kind) + if evs.last().0 is Some && evs.last().1 == kind {
            1nat
        } else {
            0nat
        }
    }
}

/// Number of successful events on or before day `day`.
pub open spec fn successes_through(evs: Seq<DatedEvent>, day: int) -> nat
    decreases evs.len(),
{
    if evs.len() == 0 {
        0
    } else {
        successes_through(evs.drop_last(), day) + if (evs.last().0 matches Option::Some(d) && d
            <= day) && evs.last().1 == EventType::Successful {
            1nat
        } else {
            0nat
        }
    }
}

/// Day counts toward the streak.
pub open spec fn streak_day(evs: Seq<DatedEvent>, day: int) -> bool {
    count_on(evs, day, EventType::Successful) >= STREAK_MIN_SUCCESS
}

/// `s` is the number of consecutive streak days ending on `today`.
pub open spec fn is_streak(evs: Seq<DatedEvent>, today: int, s: int) -> bool {
    &&& s >= 0
    &&& forall|j: int| 0 <= j < s ==> #[trigger] streak_day(evs, today - j)
    &&& !streak_day(evs, today - s)
}

/// Day of entry `i` of a window of `days` days ending on `today`.
pub open spec fn window_day(today: int, days: int, i: int) -> int {
    today - (days - 1 - i)
}

/// The label `YYYY-MM-DD` that the calendar library prints for a day number.
pub uninterp spec fn ymd_text(day: int) -> Seq<char>;

/// The UTC calendar day (day number) of the instant that the calendar
/// library reads from an RFC 3339 text; `None` when the text does not parse.
pub uninterp spec fn rfc3339_utc_day(ts: Seq<char>) -> Option<int>;

/// The RFC 3339 text that the calendar library prints for an instant
/// (`secs` since the Unix epoch plus `nanos`) shown at UTC offset `offset_secs`.
pub uninterp spec fn rfc3339_text(secs: int, nanos: int, offset_secs: int) -> Seq<char>;

/// A local day `d` of an event whose UTC day is `u`: both known or both
/// unknown, and a known local day at most one day from the UTC day (UTC
/// offsets are shorter than a day).
pub open spec fn day_near(d: Option<i64>, u: Option<int>) -> bool {
    match (d, u) {
        (Option::None, Option::None) => true,
        (Option::Some(d), Option::Some(u)) => u - 1 <= d <= u + 1,
        _ => false,
    }
}

/// `r` is the dashboard of the dated events `evs` over a window of `days`
/// days ending on `today`.
pub open spec fn describes(r: DashboardData, evs: Seq<DatedEvent>, days: int, today: int) -> bool {
    &&& r.today_successful == count_on(evs, today, EventType::Successful)
    &&& r.today_skipped == count_on(evs, today, EventType::Skipped)
    &&& is_streak(evs, today, r.streak as int)
    &&& r.all_time_total == count_dated(evs, EventType::Successful)
    &&& r.days@.len() == days
    &&& forall|i: int|
        0 <= i < days ==> {
            &&& (#[trigger] r.days@[i]).date@ == ymd_text(window_day(today, days, i))
            &&& r.days@[i].successful == count_on(
                evs,
                window_day(today, days, i),
                EventType::Successful,
            )
            &&& r.days@[i].skipped == count_on(evs, window_day(today, days, i), EventType::Skipped)
        }
}

/// `dated` is the history `events` reduced to days and kinds: the day is
/// known exactly for the events whose timestamp parses, and is then within a
/// day of the timestamp's UTC day.
pub open spec fn dated_from(events: Seq<Event>, dated: Seq<DatedEvent>) -> bool {
    &&& dated.len() == events.len()
    &&& forall|i: int|
        0 <= i < events.len() ==> {
            &&& day_near((#[trigger] dated[i]).0, rfc3339_utc_day(events[i].ts@))
            &&& dated[i].1 == events[i].kind
        }
}

/// Calls `chrono::DateTime::parse_from_rfc3339` on the timestamp and, when it
/// parses, converts the instant to the machine's local time zone
/// (`with_timezone(&Local)`), takes its calendar date (`date_naive`) and that
/// date's day number (`Datelike::num_days_from_ce`). Claimed: the result is
/// `Some` exactly when the parse succeeds, and the local day is then within
/// one day of the instant's UTC day, since a chrono offset is shorter than a
/// day. Which of those days comes back depends on the machine's time zone and
/// is not stated.
#[verifier::external_body]
fn event_local_day(ts: &str) -> (r: Option<i64>)
    ensures
        day_near(r, rfc3339_utc_day(ts@)),
{
    match DateTime::parse_from_rfc3339(ts) {
        Ok(dt) => Some(dt.with_timezone(&Local).date_naive().num_days_from_ce() as i64),
        Err(_) => None,
    }
}

/// Calls `chrono::NaiveDate::from_num_days_from_ce_opt` on a day number inside
/// the calendar's range (where it returns `Some`) and prints the date with
/// `format("%Y-%m-%d")`. Claimed: the text is `ymd_text` of the day.
#[verifier::external_body]
fn ymd_label(day: i64) -> (s: String)
    requires
        MIN_DAY <= day <= MAX_DAY,
    ensures
        s@ == ymd_text(day as int),
{
    NaiveDate::from_num_days_from_ce_opt(day as i32).unwrap().format("%Y-%m-%d").to_string()
}

/// An instant and the UTC offset it is shown at: seconds since the Unix
/// epoch, nanoseconds within that second (a leap second runs past a billion),
/// and local time minus UTC in seconds.
#[derive(Debug, Clone, Copy, PartialEq, Eq, Structural)]
pub struct Timestamp {
    pub secs: i64,
    pub nanos: u32,
    pub offset_secs: i32,
}

/// Days from the common era of 1 January 1970.
pub const UNIX_EPOCH_DAY: i64 = 719163;

/// The instant and offset are ones the calendar library represents: the
/// offset is shorter than a day, the date lies in the calendar's range, and
/// nanoseconds past a billion only occur in the last second of a minute.
pub open spec fn timestamp_ok(at: Timestamp) -> bool {
    &&& -86400 < at.offset_secs < 86400
    &&& MIN_DAY <= at.secs / 86400 + UNIX_EPOCH_DAY <= MAX_DAY
    &&& (at.nanos < 1_000_000_000 || (at.nanos < 2_000_000_000 && at.secs % 60 == 59))
}

/// Whether the calendar library represents the instant and offset.
pub fn timestamp_in_range(at: Timestamp) -> (r: bool)
    ensures
        r == timestamp_ok(at),
{
    let day: i64 = at.secs / 86400 - if at.secs % 86400 < 0 { 1 } else { 0 };
    let sec_of_minute: i64 = at.secs % 60 + if at.secs % 60 < 0 { 60 } else { 0 };
    -86400 < at.offset_secs && at.offset_secs < 86400 && MIN_DAY - UNIX_EPOCH_DAY <= day && day
        <= MAX_DAY - UNIX_EPOCH_DAY && (at.nanos < 1_000_000_000 || (at.nanos < 2_000_000_000
        && sec_of_minute == 59))
}

/// Calls `chrono::DateTime::from_timestamp(secs, nanos)` (which returns
/// `Some` for an instant that `timestamp_ok` admits), shows it at
/// `chrono::FixedOffset::east_opt(offset_secs)` (`Some` for an offset shorter
/// than a day) with `with_timezone`, and prints it with `to_rfc3339`.
/// Claimed: the text is `rfc3339_text` of the three numbers.
#[verifier::external_body]
fn format_rfc3339(at: Timestamp) -> (s: String)
    requires
        timestamp_ok(at),
    ensures
        s@ == rfc3339_text(at.secs as int, at.nanos as int, at.offset_secs as int),
{
    let offset = FixedOffset::east_opt(at.offset_secs).unwrap();
    DateTime::from_timestamp(at.secs, at.nanos).unwrap().with_timezone(&offset).to_rfc3339()
}

impl History {
    /// Append an event stamped with the RFC 3339 text of the instant `at`.
    pub fn append_event_at(&mut self, kind: EventType, at: Timestamp)
        requires
            timestamp_ok(at),
        ensures
            final(self).events@.len() == old(self).events@.len() + 1,
            final(self).events@.drop_last() == old(self).events@,
            final(self).events@.last().kind == kind,
            final(self).events@.last().ts@ == rfc3339_text(
                at.secs as int,
                at.nanos as int,
                at.offset_secs as int,
            ),
    {
        let ts = format_rfc3339(at);
        self.push_event(ts, kind);
        assert(self.events@.drop_last() =~= old(self).events@);
    }
}

proof fn lemma_successes_split(evs: Seq<DatedEvent>, day: int)
    ensures
        successes_through(evs, day) == successes_through(evs, day - 1) + count_on(
            evs,
            day,
            EventType::Successful,
        ),
    decreases evs.len(),
{
    if evs.len() > 0 {
        lemma_successes_split(evs.drop_last(), day);
    }
}

proof fn lemma_successes_bounded(evs: Seq<DatedEvent>, day: int)
    ensures
        successes_through(evs, day) <= evs.len(),
    decreases evs.len(),
{
    if evs.len() > 0 {
        lemma_successes_bounded(evs.drop_last(), day);
    }
}

/// The successful and skipped counts of day `day`.
pub fn count_day(dated: &Vec<DatedEvent>, day: i64) -> (r: (u32, u32))
    requires
        dated@.len() <= u32::MAX,
    ensures
        r.0 == count_on(dated@, day as int, EventType::Successful),
        r.1 == count_on(dated@, day as int, EventType::Skipped),
{
    let mut s: u32 = 0;
    let mut k: u32 = 0;
    let n = dated.len();
    for i in 0..n
        invariant
            n == dated@.len(),
            n <= u32::MAX,
            s <= i,
            k <= i,
            s == count_on(dated@.take(i as int), day as int, EventType::Successful),
            k == count_on(dated@.take(i as int), day as int, EventType::Skipped),
    {
        assert(dated@.take(i + 1).drop_last() == dated@.take(i as int));
        let (d, kind) = dated[i];
        if d == Some(day) {
            match kind {
                EventType::Successful => {
                    s = s + 1;
                },
                EventType::Skipped => {
                    k = k + 1;
                },
                EventType::MeetingNotified => {},
            }
        }
    }
    assert(dated@.take(n as int) == dated@);
    (s, k)
}

/// The dashboard of already dated events: today's counts, the streak of
/// consecutive days ending today with at least one successful break, the
/// all-time number of successful breaks, and the counts of the last `days`
/// days in ascending order, today last.
pub fn tally(dated: &Vec<DatedEvent>, days: usize, today: i64) -> (r: DashboardData)
    requires
        dated@.len() <= u32::MAX,
        MIN_DAY <= today <= MAX_DAY,
        days == 0 || today - (days - 1) >= MIN_DAY,
    ensures
        describes(r, dated@, days as int, today as int),
{
    let n = dated.len();

    // All-time successful breaks.
    let mut all_time_total: u32 = 0;
    for i in 0..n
        invariant
            n == dated@.len(),
            n <= u32::MAX,
            all_time_total <= i,
            all_time_total == count_dated(dated@.take(i as int), EventType::Successful),
    {
        assert(dated@.take(i + 1).drop_last() == dated@.take(i as int));
        let (d, kind) = dated[i];
        if d.is_some() {
            match kind {
                EventType::Successful => {
                    all_time_total = all_time_total + 1;
                },
                _ => {},
            }
        }
    }
    assert(dated@.take(n as int) == dated@);

    let (today_successful, today_skipped) = count_day(dated, today);

    // Streak: consecutive days ending today meeting the threshold.
    let mut streak: u32 = 0;
    let mut cursor: i64 = today;
    proof {
        lemma_successes_bounded(dated@, today as int);
    }
    loop
        invariant
            n == dated@.len(),
            n <= u32::MAX,
            MIN_DAY <= today <= MAX_DAY,
            cursor == today - streak,
            streak + successes_through(dated@, cursor as int) <= successes_through(
                dated@,
                today as int,
            ),
            successes_through(dated@, today as int) <= n,
            forall|j: int| 0 <= j < streak ==> #[trigger] streak_day(dated@, today - j),
        ensures
            is_streak(dated@, today as int, streak as int),
        decreases successes_through(dated@, cursor as int),
    {
        let (s, _) = count_day(dated, cursor);
        if s >= STREAK_MIN_SUCCESS {
            proof {
                lemma_successes_split(dated@, cursor as int);
            }
            streak = streak + 1;
            cursor = cursor - 1;
        } else {
            break ;
        }
    }

    // The last `days` days, ascending, today last.
    let mut day_counts: Vec<DayCount> = Vec::new();
    let mut i: usize = days;
    while i > 0
        invariant
            n == dated@.len(),
            n <= u32::MAX,
            MIN_DAY <= today <= MAX_DAY,
            days == 0 || today - (days - 1) >= MIN_DAY,
            i <= days,
            day_counts@.len() == days - i,
            forall|k: int|
                0 <= k < days - i ==> {
                    &&& (#[trigger] day_counts@[k]).date@ == ymd_text(
                        window_day(today as int, days as int, k),
                    )
                    &&& day_counts@[k].successful == count_on(
                        dated@,
                        window_day(today as int, days as int, k),
                        EventType::Successful,
                    )
                    &&& day_counts@[k].skipped == count_on(
                        dated@,
                        window_day(today as int, days as int, k),
                        EventType::Skipped,
                    )
                },
        decreases i,
    {
        let back: i64 = (i - 1) as i64;
        let d: i64 = today - back;
        let (s, k) = count_day(dated, d);
        let date = ymd_label(d);
        day_counts.push(DayCount { date, successful: s, skipped: k });
        i = i - 1;
    }

    DashboardData { today_successful, today_skipped, streak, all_time_total, days: day_counts }
}

/// Counting from the empty log up: an empty log counts nothing; appending a
/// successful break with a known day adds one to that day's successful count
/// and to the all-time total; any event leaves the counts of every other day
/// and kind as they were. A streak day is a day with at least one successful break.
pub proof fn lemma_append_counts(evs: Seq<DatedEvent>, e: DatedEvent, day: int, kind: EventType)
    ensures
        count_on(evs.push(e), day, kind) == count_on(evs, day, kind) + if (e.0 matches Option::Some(
            d,
        ) && d == day) && e.1 == kind {
            1nat
        } else {
            0nat
        },
        count_dated(evs.push(e), kind) == count_dated(evs, kind) + if e.0 is Some && e.1 == kind {
            1nat
        } else {
            0nat
        },
        count_on(Seq::<DatedEvent>::empty(), day, kind) == 0,
        count_dated(Seq::<DatedEvent>::empty(), kind) == 0,
        streak_day(evs, day) <==> count_on(evs, day, EventType::Successful) >= 1,
{
    assert(evs.push(e).drop_last() == evs);
}

/// A meeting notice counts as neither a successful nor a skipped break.
pub proof fn lemma_meeting_notice_counts_nothing(evs: Seq<DatedEvent>, day_of: Option<i64>, day: int)
    ensures
        count_on(evs.push((day_of, EventType::MeetingNotified)), day, EventType::Successful)
            == count_on(evs, day, EventType::Successful),
        count_on(evs.push((day_of, EventType::MeetingNotified)), day, EventType::Skipped)
            == count_on(evs, day, EventType::Skipped),
        count_dated(evs.push((day_of, EventType::MeetingNotified)), EventType::Successful)
            == count_dated(evs, EventType::Successful),
{
    lemma_append_counts(evs, (day_of, EventType::MeetingNotified), day, EventType::Successful);
    lemma_append_counts(evs, (day_of, EventType::MeetingNotified), day, EventType::Skipped);
}

/// The streak is determined by the log: there is at most one streak length,
/// and a day without a successful break, `j` days back, caps it at `j`.
pub proof fn lemma_streak_unique(evs: Seq<DatedEvent>, today: int, s1: int, s2: int, j: int)
    requires
        is_streak(evs, today, s1),
        is_streak(evs, today, s2),
    ensures
        s1 == s2,
        0 <= j && !streak_day(evs, today - j) ==> s1 <= j,
{
    if s1 < s2 {
        assert(streak_day(evs, today - s1));
    }
    if s2 < s1 {
        assert(streak_day(evs, today - s2));
    }
    if 0 <= j && !streak_day(evs, today - j) && j < s1 {
        assert(streak_day(evs, today - j));
    }
}

/// The window is in ascending order of days and its last entry is today.
pub proof fn lemma_window_ends_today(today: int, days: int, i: int)
    requires
        days > 0,
        0 <= i < days - 1,
    ensures
        window_day(today, days, days - 1) == today,
        window_day(today, days, i) + 1 == window_day(today, days, i + 1),
{
}

impl History {
    /// The dashboard of this log as of `today`, over a window of the last
    /// `days` days. Each event counts on its calendar day in the local time
    /// zone; events whose timestamp does not parse are left out.
    pub fn dashboard_asof(&self, days: usize, today: i64) -> (r: DashboardData)
        requires
            self.events@.len() <= u32::MAX,
            MIN_DAY <= today <= MAX_DAY,
            days == 0 || today - (days - 1) >= MIN_DAY,
        ensures
            exists|dated: Seq<DatedEvent>|
                #[trigger] dated_from(self.events@, dated) && describes(
                    r,
                    dated,
                    days as int,
                    today as int,
                ),
    {
        let mut dated: Vec<DatedEvent> = Vec::new();
        let n = self.events.len();
        for i in 0..n
            invariant
                n == self.events@.len(),
                dated@.len() == i,
                forall|j: int|
                    0 <= j < i ==> {
                        &&& day_near((#[trigger] dated@[j]).0, rfc3339_utc_day(self.events@[j].ts@))
                        &&& dated@[j].1 == self.events@[j].kind
                    },
        {
            let ev = &self.events[i];
            let day = event_local_day(ev.ts.as_str());
            dated.push((day, ev.kind));
        }
        let r = tally(&dated, days, today);
        assert(dated_from(self.events@, dated@));
        r
    }
}

} // verus!
