//! The shared application state and the state changes that the user-interface
//! commands, the tray menu and the once-a-second cycle loop make to it: what
//! happens when a work interval or a break ends, a break is skipped, or the
//! settings change. The windows, notifications, files and locking are handled
//! outside the library.

use crate::messages::{
    meeting_text, random_meeting, random_stretch, stretch_body, stretch_title, MEETING_COUNT,
    STRETCH_COUNT,
};
use crate::store::{EventType, Settings, Store};
use crate::timer::{Engine, EngineState, EngineView, Phase, Tick};
use vstd::prelude::*;

verus! {

/// Info handed to the overlay window when a break starts.
#[derive(Debug, Clone)]
pub struct CurrentBreak {
    pub title: String,
    pub body: String,
    pub break_secs: i64,
    pub successful_today: u32,
}

/// What to show when a work interval ends.
#[derive(Debug, Clone)]
pub enum WorkEnd {
    /// In a meeting: no blocking, a desktop notification with this body.
    NotifyMeeting(String),
    /// Not in a meeting: the fullscreen break overlay.
    ShowBreak,
}

/// Seconds in `minutes` minutes.
pub open spec fn minutes_secs(minutes: u32) -> i64 {
    (minutes * 60) as i64
}

/// A setting of `m` minutes is exactly `60 * m` seconds, for every `m`
/// (nothing is capped or rounded).
pub proof fn lemma_minutes_are_sixty_seconds(m: u32)
    ensures
        minutes_secs(m) == m * 60,
        minutes_secs(m) >= 0,
        m > 0 ==> minutes_secs(m) / 60 == m,
{
}

/// The tray toggle: forced on becomes automatic; forced off and automatic
/// both become forced on.
pub proof fn lemma_toggle_cases()
    ensures
        toggled_override(Option::Some(true)) == Option::<bool>::None,
        toggled_override(Option::Some(false)) == Option::Some(true),
        toggled_override(Option::None) == Option::Some(true),
        forall|c: Option<bool>| toggled_override(toggled_override(c)) == Option::<bool>::None
            <==> toggled_override(c) == Option::Some(true),
{
}

/// The next manual meeting override when the tray's "Force meeting mode"
/// item is clicked: forced on becomes automatic, anything else becomes forced on.
pub open spec fn toggled_override(current: Option<bool>) -> Option<bool> {
    match current {
        Option::Some(true) => Option::None,
        _ => Option::Some(true),
    }
}

/// Everything the application shares between its commands and its cycle loop.
pub struct AppState {
    store: Store,
    engine: Engine,
    settings: Settings,
    current_break: Option<CurrentBreak>,
}

impl AppState {
    /// The engine's durations come from minute settings (whole, non-negative,
    /// at most `u32::MAX` minutes) and its clock stays inside the active phase.
    #[verifier::type_invariant]
    spec fn inv(self) -> bool {
        &&& self.engine@.wf()
        &&& self.engine@.bounded()
        &&& self.engine@.work_secs <= u32::MAX * 60
        &&& self.engine@.break_secs <= u32::MAX * 60
    }

    /// Where the history and the settings live.
    pub closed spec fn store_model(&self) -> Store {
        self.store
    }

    /// The engine's model.
    pub closed spec fn engine_model(&self) -> EngineView {
        self.engine@
    }

    /// The settings in force.
    pub closed spec fn settings_model(&self) -> Settings {
        self.settings
    }

    /// The break shown on the overlay, if any.
    pub closed spec fn break_model(&self) -> Option<CurrentBreak> {
        self.current_break
    }

    /// The state at start-up: a fresh work interval of the configured length.
    pub fn new(store: Store, settings: Settings) -> (s: AppState)
        ensures
            s.store_model() == store,
            s.settings_model() == settings,
            s.engine_model() == EngineView::fresh(
                minutes_secs(settings.work_minutes),
                minutes_secs(settings.break_minutes),
            ),
            s.break_model() is None,
            s.engine_model().work_secs == settings.work_minutes * 60,
            s.engine_model().break_secs == settings.break_minutes * 60,
            s.engine_model().remaining == settings.work_minutes * 60,
            s.engine_model().active == Phase::Work,
            !s.engine_model().paused,
    {
        let engine = Engine::new(
            settings.work_minutes as i64 * 60,
            settings.break_minutes as i64 * 60,
        );
        AppState { store, engine, settings, current_break: None }
    }

    /// Where the history and the settings live.
    pub fn store(&self) -> (r: &Store)
        ensures
            *r == self.store_model(),
    {
        &self.store
    }

    /// The settings in force.
    pub fn settings(&self) -> (r: Settings)
        ensures
            r == self.settings_model(),
    {
        self.settings
    }

    /// The break shown on the overlay, if any.
    pub fn current_break(&self) -> (r: &Option<CurrentBreak>)
        ensures
            *r == self.break_model(),
    {
        &self.current_break
    }

    /// The engine snapshot shown to the user interface.
    pub fn engine_state(&self) -> (r: EngineState)
        ensures
            r == self.engine_model().observed(),
            self.engine_model().bounded(),
            r.remaining_secs == self.engine_model().remaining,
            r.work_secs == self.engine_model().work_secs,
            r.break_secs == self.engine_model().break_secs,
            r.phase == if self.engine_model().paused {
                Phase::Paused
            } else {
                self.engine_model().active
            },
    {
        proof {
            use_type_invariant(self);
        }
        self.engine.state()
    }

    /// One second of the cycle.
    pub fn tick(&mut self) -> (t: Tick)
        ensures
            (final(self).engine_model(), t) == old(self).engine_model().ticked(),
            final(self).settings_model() == old(self).settings_model(),
            final(self).store_model() == old(self).store_model(),
            final(self).break_model() == old(self).break_model(),
    {
        proof {
            use_type_invariant(&*self);
            crate::timer::lemma_clock_stays_in_phase(self.engine@, 0, 0);
        }
        let mut engine = self.engine.clone();
        let t = engine.tick();
        self.engine = engine;
        t
    }

    /// Pause when running, resume when paused; returns the new snapshot.
    pub fn toggle_pause(&mut self) -> (r: EngineState)
        ensures
            final(self).engine_model() == (EngineView {
                paused: !old(self).engine_model().paused,
                ..old(self).engine_model()
            }),
            r == final(self).engine_model().observed(),
            final(self).settings_model() == old(self).settings_model(),
            final(self).store_model() == old(self).store_model(),
            final(self).break_model() == old(self).break_model(),
    {
        proof {
            use_type_invariant(&*self);
        }
        let mut engine = self.engine.clone();
        engine.toggle_pause();
        self.engine = engine;
        self.engine.state()
    }

    /// New settings from the settings page: the engine takes the new
    /// durations (restarting the current phase's clock) and the settings are
    /// replaced. Returns the settings now in force.
    pub fn apply_settings(&mut self, new: Settings) -> (r: Settings)
        ensures
            r == new,
            final(self).settings_model() == new,
            final(self).engine_model() == old(self).engine_model().with_durations(
                minutes_secs(new.work_minutes),
                minutes_secs(new.break_minutes),
            ),
            final(self).store_model() == old(self).store_model(),
            final(self).break_model() == old(self).break_model(),
            final(self).engine_model().work_secs == new.work_minutes * 60,
            final(self).engine_model().break_secs == new.break_minutes * 60,
            final(self).engine_model().remaining == if old(self).engine_model().active
                == Phase::Break {
                new.break_minutes * 60
            } else {
                new.work_minutes * 60
            },
    {
        proof {
            use_type_invariant(&*self);
        }
        let mut engine = self.engine.clone();
        engine.set_durations(new.work_minutes as i64 * 60, new.break_minutes as i64 * 60);
        self.engine = engine;
        self.settings = new;
        new
    }

    /// Set or clear the manual meeting override. Returns the settings now in force.
    pub fn set_meeting_override(&mut self, value: Option<bool>) -> (r: Settings)
        ensures
            r == final(self).settings_model(),
            final(self).settings_model() == (Settings {
                manual_meeting_override: value,
                ..old(self).settings_model()
            }),
            final(self).engine_model() == old(self).engine_model(),
            final(self).store_model() == old(self).store_model(),
            final(self).break_model() == old(self).break_model(),
    {
        proof {
            use_type_invariant(&*self);
        }
        self.settings = Settings { manual_meeting_override: value, ..self.settings };
        self.settings
    }

    /// The tray's "Force meeting mode" item: forced on becomes automatic,
    /// anything else becomes forced on. Returns the settings now in force.
    pub fn toggle_meeting_override(&mut self) -> (r: Settings)
        ensures
            r == final(self).settings_model(),
            final(self).settings_model() == (Settings {
                manual_meeting_override: toggled_override(
                    old(self).settings_model().manual_meeting_override,
                ),
                ..old(self).settings_model()
            }),
            final(self).engine_model() == old(self).engine_model(),
            final(self).store_model() == old(self).store_model(),
            final(self).break_model() == old(self).break_model(),
    {
        proof {
            use_type_invariant(&*self);
        }
        let next = match self.settings.manual_meeting_override {
            Some(true) => None,
            _ => Some(true),
        };
        self.settings = Settings { manual_meeting_override: next, ..self.settings };
        self.settings
    }

    /// Skip the in-progress break. Returns the event to log: a skipped break
    /// when a break was in progress, nothing otherwise. The overlay's break
    /// info is cleared either way.
    pub fn skip_break(&mut self) -> (r: Option<EventType>)
        ensures
            r == if old(self).engine_model().active == Phase::Break {
                Option::Some(EventType::Skipped)
            } else {
                Option::None
            },
            final(self).engine_model() == old(self).engine_model().skipped().0,
            final(self).break_model() is None,
            final(self).settings_model() == old(self).settings_model(),
            final(self).store_model() == old(self).store_model(),
    {
        proof {
            use_type_invariant(&*self);
            crate::timer::lemma_clock_stays_in_phase(self.engine@, 0, 0);
        }
        let mut engine = self.engine.clone();
        let skipped = engine.skip_break_completion().is_some();
        self.engine = engine;
        self.current_break = None;
        if skipped {
            Some(EventType::Skipped)
        } else {
            None
        }
    }

    /// The work interval ended. In a meeting: no blocking, a notification
    /// with a random meeting notice, a meeting notice to log, and a fresh work
    /// interval. Otherwise: the overlay with a random stretch prompt, the
    /// break length and the successful breaks so far today, and the break
    /// countdown begins.
    pub fn on_work_ended(&mut self, in_meeting: bool, successful_today: u32) -> (r: (
        WorkEnd,
        Option<EventType>,
    ))
        ensures
            in_meeting ==> {
                &&& r.0 matches WorkEnd::NotifyMeeting(body) && exists|i: int|
                    0 <= i < MEETING_COUNT && body@ == #[trigger] meeting_text(i)
                &&& r.1 == Option::Some(EventType::MeetingNotified)
                &&& final(self).engine_model() == old(self).engine_model().restarted()
                &&& final(self).break_model() == old(self).break_model()
            },
            !in_meeting ==> {
                &&& r.0 is ShowBreak
                &&& r.1 is None
                &&& final(self).engine_model() == old(self).engine_model().break_started()
                &&& final(self).break_model() matches Option::Some(b) && {
                    &&& b.break_secs == old(self).engine_model().break_secs
                    &&& b.successful_today == successful_today
                    &&& exists|i: int|
                        0 <= i < STRETCH_COUNT && b.title@ == #[trigger] stretch_title(i)
                            && b.body@ == stretch_body(i)
                }
            },
            final(self).settings_model() == old(self).settings_model(),
            final(self).store_model() == old(self).store_model(),
    {
        proof {
            use_type_invariant(&*self);
            crate::timer::lemma_clock_stays_in_phase(self.engine@, 0, 0);
        }
        if in_meeting {
            let body = random_meeting();
            let mut engine = self.engine.clone();
            engine.restart_work();
            self.engine = engine;
            (WorkEnd::NotifyMeeting(String::from_str(body)), Some(EventType::MeetingNotified))
        } else {
            let (title, body) = random_stretch();
            let break_secs = self.engine.state().break_secs;
            self.current_break = Some(
                CurrentBreak {
                    title: String::from_str(title),
                    body: String::from_str(body),
                    break_secs,
                    successful_today,
                },
            );
            let mut engine = self.engine.clone();
            engine.start_break();
            self.engine = engine;
            (WorkEnd::ShowBreak, None)
        }
    }

    /// The break ran out: the overlay's break info is cleared and a
    /// successful break is to be logged.
    pub fn on_break_ended(&mut self) -> (r: EventType)
        ensures
            r == EventType::Successful,
            final(self).break_model() is None,
            final(self).engine_model() == old(self).engine_model(),
            final(self).settings_model() == old(self).settings_model(),
            final(self).store_model() == old(self).store_model(),
    {
        proof {
            use_type_invariant(&*self);
        }
        self.current_break = None;
        EventType::Successful
    }
}

} // verus!
