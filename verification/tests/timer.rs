use screenblocker::timer::{Engine, Phase, Tick};

#[test]
fn work_ends_after_its_duration() {
    let mut e = Engine::new(3, 2);
    assert_eq!(e.tick(), Tick::Nothing); // 3 -> 2
    assert_eq!(e.tick(), Tick::Nothing); // 2 -> 1
    assert_eq!(e.tick(), Tick::WorkEnded); // 1 -> 0
    assert_eq!(e.state().phase, Phase::Work);
    assert_eq!(e.state().remaining_secs, 0);
}

#[test]
fn break_runs_then_returns_to_work() {
    let mut e = Engine::new(3, 2);
    e.start_break();
    assert_eq!(e.state().phase, Phase::Break);
    assert_eq!(e.tick(), Tick::Nothing); // 2 -> 1
    assert_eq!(e.tick(), Tick::BreakEnded); // 1 -> 0
    assert_eq!(e.state().phase, Phase::Work);
    assert_eq!(e.state().remaining_secs, 3);
}

#[test]
fn skip_only_counts_during_break() {
    let mut e = Engine::new(10, 5);
    assert_eq!(e.skip_break_completion(), None, "no break in progress");
    e.start_break();
    assert!(e.skip_break_completion().is_some(), "break was skipped");
    assert_eq!(e.state().phase, Phase::Work);
    assert_eq!(e.state().remaining_secs, 10);
}

#[test]
fn skip_completion_reports_percent_elapsed() {
    let mut e = Engine::new(10, 100);
    e.start_break();
    // Burn 80 of 100 break seconds.
    for _ in 0..80 {
        e.tick();
    }
    assert_eq!(e.skip_break_completion(), Some(80));
}

#[test]
fn skip_completion_is_zero_at_break_start() {
    let mut e = Engine::new(10, 100);
    e.start_break();
    assert_eq!(e.skip_break_completion(), Some(0));
}

#[test]
fn restart_work_resets_to_a_fresh_work_interval() {
    let mut e = Engine::new(5, 2);
    e.start_break();
    e.restart_work();
    assert_eq!(e.state().phase, Phase::Work);
    assert_eq!(e.state().remaining_secs, 5);
}

#[test]
fn pause_halts_the_countdown() {
    let mut e = Engine::new(5, 2);
    e.pause();
    assert_eq!(e.tick(), Tick::Nothing);
    assert_eq!(e.tick(), Tick::Nothing);
    assert_eq!(e.state().phase, Phase::Paused);
    assert_eq!(e.state().remaining_secs, 5, "clock did not move while paused");
    e.resume();
    assert_eq!(e.tick(), Tick::Nothing);
    assert_eq!(e.state().remaining_secs, 4);
}

#[test]
fn work_end_waits_at_zero_until_the_caller_acts() {
    let mut e = Engine::new(1, 2);
    assert_eq!(e.tick(), Tick::WorkEnded);
    assert_eq!(e.tick(), Tick::WorkEnded);
    assert_eq!(e.state().remaining_secs, 0);
    e.start_break();
    assert_eq!(e.state().remaining_secs, 2);
}

#[test]
fn break_ends_on_exactly_its_last_second() {
    let mut e = Engine::new(7, 4);
    e.start_break();
    for _ in 0..3 {
        assert_eq!(e.tick(), Tick::Nothing);
    }
    assert_eq!(e.tick(), Tick::BreakEnded);
    assert_eq!(e.state().phase, Phase::Work);
    assert_eq!(e.state().remaining_secs, 7);
}

#[test]
fn zero_length_break_ends_at_once_and_skips_as_complete() {
    let mut e = Engine::new(5, 0);
    e.start_break();
    assert_eq!(e.skip_break_completion(), Some(100));
    e.start_break();
    assert_eq!(e.tick(), Tick::BreakEnded);
    assert_eq!(e.state().remaining_secs, 5);
}

#[test]
fn skip_percent_rounds_down() {
    let mut e = Engine::new(10, 3);
    e.start_break();
    e.tick();
    assert_eq!(e.skip_break_completion(), Some(33));
}

#[test]
fn set_durations_restarts_the_current_phase_clock() {
    let mut e = Engine::new(10, 5);
    e.tick();
    e.set_durations(20, 8);
    assert_eq!(e.state().remaining_secs, 20);
    assert_eq!(e.state().work_secs, 20);
    assert_eq!(e.state().break_secs, 8);
    e.start_break();
    e.tick();
    e.set_durations(30, 6);
    assert_eq!(e.state().phase, Phase::Break);
    assert_eq!(e.state().remaining_secs, 6);
}

#[test]
fn toggle_pause_twice_changes_nothing() {
    let mut e = Engine::new(4, 2);
    e.toggle_pause();
    assert_eq!(e.state().phase, Phase::Paused);
    e.toggle_pause();
    assert_eq!(e.state().phase, Phase::Work);
    assert_eq!(e.tick(), Tick::Nothing);
    assert_eq!(e.state().remaining_secs, 3);
}

#[test]
fn skip_while_paused_keeps_the_pause() {
    let mut e = Engine::new(6, 4);
    e.start_break();
    e.pause();
    assert_eq!(e.skip_break_completion(), Some(0));
    assert_eq!(e.state().phase, Phase::Paused);
    assert_eq!(e.state().remaining_secs, 6);
}

#[test]
fn cloned_engine_runs_independently() {
    let mut e = Engine::new(3, 1);
    e.tick();
    let mut c = e.clone();
    c.tick();
    assert_eq!(e.state().remaining_secs, 2);
    assert_eq!(c.state().remaining_secs, 1);
}
