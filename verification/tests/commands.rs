use screenblocker::commands::{AppState, WorkEnd};
use screenblocker::messages::{meeting_at, stretch_at, MEETING_COUNT, STRETCH_COUNT};
use screenblocker::store::{EventType, Settings, Store};
use screenblocker::timer::{Phase, Tick};
use std::path::PathBuf;

fn state(work: u32, brk: u32) -> AppState {
    let store = Store::with_paths(PathBuf::from("h.json"), PathBuf::from("s.json"));
    let mut settings = Settings::default();
    settings.work_minutes = work;
    settings.break_minutes = brk;
    AppState::new(store, settings)
}

#[test]
fn app_state_starts_a_work_interval_from_minutes() {
    let s = state(25, 5);
    let e = s.engine_state();
    assert_eq!(e.phase, Phase::Work);
    assert_eq!(e.remaining_secs, 1500);
    assert_eq!(e.work_secs, 1500);
    assert_eq!(e.break_secs, 300);
    assert!(s.current_break().is_none());
    assert_eq!(s.store().history_path(), &PathBuf::from("h.json"));
}

#[test]
fn work_end_outside_a_meeting_blocks_with_a_stretch_prompt() {
    let mut s = state(1, 2);
    let (action, event) = s.on_work_ended(false, 3);
    assert!(matches!(action, WorkEnd::ShowBreak));
    assert_eq!(event, None);
    let b = s.current_break().clone().unwrap();
    assert!((0..STRETCH_COUNT).any(|i| stretch_at(i) == (b.title.as_str(), b.body.as_str())));
    assert_eq!(b.break_secs, 120);
    assert_eq!(b.successful_today, 3);
    assert_eq!(s.engine_state().phase, Phase::Break);
    assert_eq!(s.engine_state().remaining_secs, 120);
}

#[test]
fn work_end_in_a_meeting_notifies_and_restarts_work() {
    let mut s = state(1, 2);
    for _ in 0..59 {
        assert_eq!(s.tick(), Tick::Nothing);
    }
    assert_eq!(s.tick(), Tick::WorkEnded);
    let (action, event) = s.on_work_ended(true, 0);
    match action {
        WorkEnd::NotifyMeeting(body) => {
            assert!((0..MEETING_COUNT).any(|i| meeting_at(i) == body));
        }
        WorkEnd::ShowBreak => panic!("a meeting must not block"),
    }
    assert_eq!(event, Some(EventType::MeetingNotified));
    assert!(s.current_break().is_none());
    assert_eq!(s.engine_state().remaining_secs, 60);
    assert_eq!(s.engine_state().phase, Phase::Work);
}

#[test]
fn skipping_a_break_clears_it_and_restarts_work() {
    let mut s = state(1, 2);
    assert_eq!(s.skip_break(), None, "nothing to skip outside a break");
    s.on_work_ended(false, 0);
    assert_eq!(s.skip_break(), Some(EventType::Skipped));
    assert!(s.current_break().is_none());
    assert_eq!(s.engine_state().phase, Phase::Work);
    assert_eq!(s.engine_state().remaining_secs, 60);
}

#[test]
fn finished_break_logs_success_and_clears_the_overlay_info() {
    let mut s = state(1, 1);
    s.on_work_ended(false, 0);
    for _ in 0..59 {
        s.tick();
    }
    assert_eq!(s.tick(), Tick::BreakEnded);
    assert_eq!(s.on_break_ended(), EventType::Successful);
    assert!(s.current_break().is_none());
}

#[test]
fn new_settings_reset_the_clock() {
    let mut s = state(25, 5);
    s.tick();
    let mut new = Settings::default();
    new.work_minutes = 40;
    new.break_minutes = 10;
    let r = s.apply_settings(new);
    assert_eq!(r.work_minutes, 40);
    assert_eq!(s.settings().work_minutes, 40);
    assert_eq!(s.engine_state().remaining_secs, 2400);
    assert_eq!(s.engine_state().break_secs, 600);
}

#[test]
fn toggle_pause_through_the_app_state() {
    let mut s = state(1, 1);
    assert_eq!(s.toggle_pause().phase, Phase::Paused);
    assert_eq!(s.tick(), Tick::Nothing);
    assert_eq!(s.engine_state().remaining_secs, 60);
    assert_eq!(s.toggle_pause().phase, Phase::Work);
}

#[test]
fn meeting_override_set_and_toggled() {
    let mut s = state(25, 5);
    assert_eq!(s.set_meeting_override(Some(false)).manual_meeting_override, Some(false));
    assert_eq!(s.toggle_meeting_override().manual_meeting_override, Some(true));
    assert_eq!(s.toggle_meeting_override().manual_meeting_override, None);
    assert_eq!(s.toggle_meeting_override().manual_meeting_override, Some(true));
}
