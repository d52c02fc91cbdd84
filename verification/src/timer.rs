//! The focus/break cycle state machine. It performs no I/O: it is advanced one
//! second at a time with [`Engine::tick`], and the caller performs the side
//! effects (overlay, logging) that the returned [`Tick`] asks for.

use vstd::prelude::*;

verus! {

/// What the engine is doing; `Paused` is only ever reported, never stored as
/// the active phase.
#[derive(Debug, Clone, Copy, PartialEq, Eq, Structural)]
pub enum Phase {
    Work,
    Break,
    Paused,
}

/// What happened during one second.
#[derive(Debug, Clone, Copy, PartialEq, Eq, Structural)]
pub enum Tick {
    /// Nothing happened this second.
    Nothing,
    /// The work interval just elapsed. The caller decides: block (call
    /// [`Engine::start_break`]) or, if in a meeting, notify and call
    /// [`Engine::restart_work`].
    WorkEnded,
    /// The break countdown reached zero; the engine has already returned to Work.
    BreakEnded,
}

/// A snapshot of the engine as shown to the user interface.
#[derive(Debug, Clone, Copy, PartialEq, Eq, Structural)]
pub struct EngineState {
    pub phase: Phase,
    pub remaining_secs: i64,
    pub work_secs: i64,
    pub break_secs: i64,
}

/// The mathematical model of an [`Engine`].
#[derive(Debug, Clone, Copy, PartialEq, Eq, Structural)]
pub struct EngineView {
    /// Work or Break (never Paused).
    pub active: Phase,
    pub paused: bool,
    pub remaining: i64,
    pub work_secs: i64,
    pub break_secs: i64,
}

impl EngineView {
    /// What every reachable engine satisfies: the active phase is Work or
    /// Break, and during a break the clock is either untouched (a break of a
    /// non-positive length) or inside `0..=break_secs`.
    pub open spec fn wf(self) -> bool {
        &&& self.active != Phase::Paused
        &&& self.active == Phase::Break ==> (self.remaining == self.break_secs || (0
            <= self.remaining <= self.break_secs))
    }

    /// The clock never leaves the current phase: durations are non-negative
    /// and the clock lies between zero and the length of the active phase.
    pub open spec fn bounded(self) -> bool {
        &&& self.active != Phase::Paused
        &&& self.work_secs >= 0
        &&& self.break_secs >= 0
        &&& 0 <= self.remaining
        &&& self.remaining <= if self.active == Phase::Break {
            self.break_secs
        } else {
            self.work_secs
        }
    }

    /// A fresh engine at the start of a work interval.
    pub open spec fn fresh(work_secs: i64, break_secs: i64) -> EngineView {
        EngineView { active: Phase::Work, paused: false, remaining: work_secs, work_secs, break_secs }
    }

    /// A fresh work interval (pause state kept).
    pub open spec fn restarted(self) -> EngineView {
        EngineView { active: Phase::Work, remaining: self.work_secs, ..self }
    }

    /// The break countdown begun.
    pub open spec fn break_started(self) -> EngineView {
        EngineView { active: Phase::Break, remaining: self.break_secs, ..self }
    }

    /// New durations; the clock of the current phase restarts with the new length.
    pub open spec fn with_durations(self, work_secs: i64, break_secs: i64) -> EngineView {
        EngineView {
            work_secs,
            break_secs,
            remaining: if self.active == Phase::Break {
                break_secs
            } else {
                work_secs
            },
            ..self
        }
    }

    /// One second of the cycle: the new model and what happened.
    pub open spec fn ticked(self) -> (EngineView, Tick) {
        if self.paused {
            (self, Tick::Nothing)
        } else {
            let rem: int = if self.remaining > 0 {
                self.remaining - 1
            } else {
                self.remaining as int
            };
            let counted = EngineView { remaining: rem as i64, ..self };
            if rem > 0 {
                (counted, Tick::Nothing)
            } else if self.active == Phase::Break {
                (counted.restarted(), Tick::BreakEnded)
            } else if self.active == Phase::Work {
                (counted, Tick::WorkEnded)
            } else {
                (counted, Tick::Nothing)
            }
        }
    }

    /// The model after `k` seconds.
    pub open spec fn run(self, k: nat) -> EngineView
        decreases k,
    {
        if k == 0 {
            self
        } else {
            self.ticked().0.run((k - 1) as nat)
        }
    }

    /// Seconds of the break already spent (never negative).
    pub open spec fn break_elapsed(self) -> int {
        if self.break_secs - self.remaining > 0 {
            self.break_secs - self.remaining
        } else {
            0
        }
    }

    /// How far through the break the user got, in percent (0 to 100).
    pub open spec fn completion_percent(self) -> u32 {
        if self.break_secs > 0 {
            let p: int = self.break_elapsed() * 100 / (self.break_secs as int);
            (if p > 100 {
                100
            } else if p < 0 {
                0
            } else {
                p
            }) as u32
        } else {
            100
        }
    }

    /// Skipping the break: only during a break, which then ends early.
    pub open spec fn skipped(self) -> (EngineView, Option<u32>) {
        if self.active != Phase::Break {
            (self, Option::None)
        } else {
            (self.restarted(), Option::Some(self.completion_percent()))
        }
    }

    /// The percent computation does not leave `i64`.
    pub open spec fn skip_fits(self) -> bool {
        self.active == Phase::Break && self.break_secs > 0 ==> self.break_elapsed() * 100
            <= i64::MAX
    }

    /// The snapshot shown to the user interface.
    pub open spec fn observed(self) -> EngineState {
        EngineState {
            phase: if self.paused {
                Phase::Paused
            } else {
                self.active
            },
            remaining_secs: self.remaining,
            work_secs: self.work_secs,
            break_secs: self.break_secs,
        }
    }
}

/// The focus/break cycle engine.
#[derive(Debug)]
pub struct Engine {
    active_phase: Phase,
    paused: bool,
    remaining: i64,
    work_secs: i64,
    break_secs: i64,
}

impl Clone for Engine {
    fn clone(&self) -> (e: Engine)
        ensures
            e@ == self@,
    {
        proof {
            use_type_invariant(self);
        }
        Engine {
            active_phase: self.active_phase,
            paused: self.paused,
            remaining: self.remaining,
            work_secs: self.work_secs,
            break_secs: self.break_secs,
        }
    }
}

impl View for Engine {
    type V = EngineView;

    closed spec fn view(&self) -> EngineView {
        EngineView {
            active: self.active_phase,
            paused: self.paused,
            remaining: self.remaining,
            work_secs: self.work_secs,
            break_secs: self.break_secs,
        }
    }
}

/// While the clock runs and more than `k` seconds are left, `k` ticks only
/// count the clock down, one second each, and report nothing.
pub proof fn lemma_countdown(v: EngineView, k: nat)
    requires
        v.wf(),
        !v.paused,
        k < v.remaining,
    ensures
        v.run(k) == (EngineView { remaining: (v.remaining - k) as i64, ..v }),
        forall|j: nat| j < k ==> (#[trigger] v.run(j)).ticked().1 == Tick::Nothing,
    decreases k,
{
    if k > 0 {
        let w = v.ticked().0;
        assert(w == EngineView { remaining: (v.remaining - 1) as i64, ..v });
        lemma_countdown(w, (k - 1) as nat);
        assert forall|j: nat| j < k implies (#[trigger] v.run(j)).ticked().1 == Tick::Nothing by {
            if j > 0 {
                assert(v.run(j) == w.run((j - 1) as nat));
            }
        }
    }
}

/// A fresh work interval of `w > 0` seconds reports nothing for its first
/// `w - 1` seconds and ends, with the clock at zero, on exactly the `w`-th tick.
pub proof fn lemma_work_ends_after_work_secs(work_secs: i64, break_secs: i64)
    requires
        work_secs > 0,
    ensures
        ({
            let v = EngineView::fresh(work_secs, break_secs);
            &&& forall|j: nat| j < work_secs - 1 ==> (#[trigger] v.run(j)).ticked().1 == Tick::Nothing
            &&& v.run((work_secs - 1) as nat).ticked() == (EngineView { remaining: 0, ..v }, Tick::WorkEnded)
        }),
{
    let v = EngineView::fresh(work_secs, break_secs);
    lemma_countdown(v, (work_secs - 1) as nat);
}

/// Once the work interval has ended, the engine waits at zero: every further
/// tick reports `WorkEnded` again until the caller starts a break or restarts work.
pub proof fn lemma_work_end_waits(v: EngineView)
    requires
        v.wf(),
        !v.paused,
        v.active == Phase::Work,
        v.remaining <= 0,
    ensures
        v.ticked() == (v, Tick::WorkEnded),
{
}

/// A break of `b > 0` seconds reports nothing for its first `b - 1` seconds;
/// the `b`-th tick reports `BreakEnded` and leaves the engine at the start of
/// a fresh work interval.
pub proof fn lemma_break_lasts_break_secs(v: EngineView)
    requires
        v.wf(),
        !v.paused,
        v.break_secs > 0,
    ensures
        ({
            let s = v.break_started();
            &&& forall|j: nat| j < v.break_secs - 1 ==> (#[trigger] s.run(j)).ticked().1 == Tick::Nothing
            &&& s.run((v.break_secs - 1) as nat).ticked() == (v.restarted(), Tick::BreakEnded)
        }),
{
    let s = v.break_started();
    lemma_countdown(s, (v.break_secs - 1) as nat);
}

/// A paused engine does not move, however many seconds pass.
pub proof fn lemma_pause_freezes(v: EngineView, k: nat)
    requires
        v.paused,
    ensures
        v.run(k) == v,
        v.ticked() == (v, Tick::Nothing),
    decreases k,
{
    if k > 0 {
        lemma_pause_freezes(v, (k - 1) as nat);
    }
}

/// Pausing and then resuming a running engine gives back the same engine;
/// toggling twice changes nothing.
pub proof fn lemma_pause_round_trip(v: EngineView)
    ensures
        !v.paused ==> (EngineView { paused: false, ..(EngineView { paused: true, ..v }) }) == v,
        (EngineView { paused: !(EngineView { paused: !v.paused, ..v }).paused, ..(EngineView { paused: !v.paused, ..v }) }) == v,
{
}

/// Skipping a break of `b > 0` seconds after `k < b` of its seconds have
/// passed reports `k * 100 / b` percent and starts a fresh work interval.
pub proof fn lemma_skip_reports_elapsed_share(v: EngineView, k: nat)
    requires
        v.wf(),
        !v.paused,
        v.break_secs > 0,
        k < v.break_secs,
    ensures
        v.break_started().run(k).skipped() == (v.restarted(), Option::Some(((k as int) * 100 / (v.break_secs as int)) as u32)),
{
    let s = v.break_started();
    lemma_countdown(s, k);
    let r = s.run(k);
    assert(r.break_elapsed() == k);
    assert((k as int) * 100 / (v.break_secs as int) <= 100) by (nonlinear_arith)
        requires k < v.break_secs;
    assert((k as int) * 100 / (v.break_secs as int) >= 0) by (nonlinear_arith)
        requires k < v.break_secs, k >= 0;
}

/// From `Engine::new(w, b)` with `w, b >= 0`, every operation (with
/// non-negative durations for `set_durations`) keeps the clock between zero
/// and the length of the active phase; the snapshot then shows a non-negative
/// clock, reports `Paused` exactly while paused, and otherwise Work or Break
/// with the clock at most that phase's length.
pub proof fn lemma_clock_stays_in_phase(v: EngineView, w: i64, b: i64)
    requires
        w >= 0,
        b >= 0,
    ensures
        EngineView::fresh(w, b).bounded(),
        v.bounded() ==> {
            &&& v.wf()
            &&& v.ticked().0.bounded()
            &&& v.break_started().bounded()
            &&& v.restarted().bounded()
            &&& v.skipped().0.bounded()
            &&& v.with_durations(w, b).bounded()
            &&& (EngineView { paused: true, ..v }).bounded()
            &&& (EngineView { paused: false, ..v }).bounded()
            &&& (EngineView { paused: !v.paused, ..v }).bounded()
            &&& 0 <= v.observed().remaining_secs
            &&& (v.observed().phase == Phase::Paused) == v.paused
            &&& v.observed().phase != Phase::Paused ==> {
                &&& (v.observed().phase == Phase::Work || v.observed().phase == Phase::Break)
                &&& v.observed().remaining_secs <= if v.observed().phase == Phase::Break {
                    v.observed().break_secs
                } else {
                    v.observed().work_secs
                }
            }
        },
{
}

/// The snapshot shows the engine's own clock and durations, paused or not;
/// pausing an engine whose clock reads `r` and letting any number of seconds
/// pass leaves the reported clock at `r` and the reported phase `Paused`.
pub proof fn lemma_snapshot_shows_the_clock(v: EngineView, k: nat)
    ensures
        v.observed().remaining_secs == v.remaining,
        v.observed().work_secs == v.work_secs,
        v.observed().break_secs == v.break_secs,
        v.paused ==> v.observed().phase == Phase::Paused,
        v.wf() ==> (v.observed().phase == Phase::Paused) == v.paused,
        !v.paused ==> v.observed().phase == v.active,
        (EngineView { paused: true, ..v }).run(k).observed().remaining_secs == v.remaining,
        (EngineView { paused: true, ..v }).run(k).observed().phase == Phase::Paused,
{
    lemma_pause_freezes(EngineView { paused: true, ..v }, k);
}

/// What each step does to the clock and durations, field by field: a fresh
/// engine runs its work interval unpaused; restarting work sets the clock to
/// the work length, starting a break sets it to the break length, new
/// durations replace both lengths and restart the current phase's clock, and
/// skipping outside a break changes nothing; the pause flag and the other
/// fields are kept.
pub proof fn lemma_step_fields(v: EngineView, w: i64, b: i64)
    ensures
        EngineView::fresh(w, b).active == Phase::Work,
        !EngineView::fresh(w, b).paused,
        EngineView::fresh(w, b).remaining == w,
        EngineView::fresh(w, b).work_secs == w,
        EngineView::fresh(w, b).break_secs == b,
        v.restarted().active == Phase::Work,
        v.restarted().remaining == v.work_secs,
        v.restarted().paused == v.paused,
        v.restarted().work_secs == v.work_secs,
        v.restarted().break_secs == v.break_secs,
        v.break_started().active == Phase::Break,
        v.break_started().remaining == v.break_secs,
        v.break_started().paused == v.paused,
        v.break_started().work_secs == v.work_secs,
        v.break_started().break_secs == v.break_secs,
        v.with_durations(w, b).work_secs == w,
        v.with_durations(w, b).break_secs == b,
        v.with_durations(w, b).active == v.active,
        v.with_durations(w, b).paused == v.paused,
        v.with_durations(w, b).remaining == if v.active == Phase::Break {
            b
        } else {
            w
        },
        v.active != Phase::Break ==> v.skipped() == (v, Option::<u32>::None),
        v.active == Phase::Break ==> v.skipped().0 == v.restarted() && v.skipped().1 is Some,
        v.active == Phase::Break && v.break_secs <= 0 ==> v.skipped().1 == Option::Some(100u32),
{
}

/// Every step of the cycle keeps the engine well formed.
pub proof fn lemma_steps_keep_wf(v: EngineView, w: i64, b: i64)
    requires
        v.wf(),
    ensures
        v.ticked().0.wf(),
        v.break_started().wf(),
        v.restarted().wf(),
        v.skipped().0.wf(),
        v.with_durations(w, b).wf(),
        EngineView::fresh(w, b).wf(),
{
}

impl Engine {
    #[verifier::type_invariant]
    spec fn inv(self) -> bool {
        self@.wf()
    }

    /// A new engine at the start of a work interval of `work_secs` seconds.
    pub fn new(work_secs: i64, break_secs: i64) -> (e: Engine)
        ensures
            e@ == EngineView::fresh(work_secs, break_secs),
            e@.wf(),
    {
        Engine { active_phase: Phase::Work, paused: false, remaining: work_secs, work_secs, break_secs }
    }

    /// Apply new durations (from settings). Resets the current phase's clock.
    pub fn set_durations(&mut self, work_secs: i64, break_secs: i64)
        ensures
            final(self)@ == old(self)@.with_durations(work_secs, break_secs),
            final(self)@.wf(),
    {
        proof {
            use_type_invariant(&*self);
        }
        let remaining: i64 = match self.active_phase {
            Phase::Break => break_secs,
            _ => work_secs,
        };
        *self = Engine {
            active_phase: self.active_phase,
            paused: self.paused,
            remaining,
            work_secs,
            break_secs,
        };
    }

    /// Advance the cycle by one second.
    pub fn tick(&mut self) -> (t: Tick)
        ensures
            (final(self)@, t) == old(self)@.ticked(),
            final(self)@.wf(),
    {
        proof {
            use_type_invariant(&*self);
        }
        if self.paused {
            return Tick::Nothing;
        }
        if self.remaining > 0 {
            self.remaining = self.remaining - 1;
        }
        if self.remaining > 0 {
            return Tick::Nothing;
        }
        match self.active_phase {
            Phase::Work => {
                // Stay at Work/0 until the caller decides what to do.
                Tick::WorkEnded
            },
            Phase::Break => {
                self.active_phase = Phase::Work;
                self.remaining = self.work_secs;
                Tick::BreakEnded
            },
            // The active phase is only ever Work or Break.
            Phase::Paused => Tick::Nothing,
        }
    }

    /// Begin the break countdown (the screen will be blocked).
    pub fn start_break(&mut self)
        ensures
            final(self)@ == old(self)@.break_started(),
            final(self)@.wf(),
    {
        proof {
            use_type_invariant(&*self);
        }
        self.remaining = self.break_secs;
        self.active_phase = Phase::Break;
    }

    /// Skip the current break early. Returns `Some(percent)`, how far through
    /// the break the user got (0 to 100), if a break was in progress, else `None`.
    pub fn skip_break_completion(&mut self) -> (r: Option<u32>)
        requires
            old(self)@.skip_fits(),
        ensures
            (final(self)@, r) == old(self)@.skipped(),
            r matches Option::Some(p) ==> p <= 100,
            final(self)@.wf(),
    {
        proof {
            use_type_invariant(&*self);
        }
        match self.active_phase {
            Phase::Break => {},
            _ => {
                return Option::None;
            },
        }
        let diff: i64 = self.break_secs - self.remaining;
        let elapsed: i64 = if diff > 0 {
            diff
        } else {
            0
        };
        let percent: u32 = if self.break_secs > 0 {
            let p: i64 = (elapsed * 100) / self.break_secs;
            if p > 100 {
                100
            } else if p < 0 {
                0
            } else {
                p as u32
            }
        } else {
            100
        };
        self.active_phase = Phase::Work;
        self.remaining = self.work_secs;
        Option::Some(percent)
    }

    /// Restart a fresh work interval (used when a break is skipped because a
    /// meeting is in progress).
    pub fn restart_work(&mut self)
        ensures
            final(self)@ == old(self)@.restarted(),
            final(self)@.wf(),
    {
        proof {
            use_type_invariant(&*self);
        }
        self.active_phase = Phase::Work;
        self.remaining = self.work_secs;
    }

    /// Stop the clock.
    pub fn pause(&mut self)
        ensures
            final(self)@ == (EngineView { paused: true, ..old(self)@ }),
            final(self)@.wf(),
    {
        proof {
            use_type_invariant(&*self);
        }
        self.paused = true;
    }

    /// Let the clock run again.
    pub fn resume(&mut self)
        ensures
            final(self)@ == (EngineView { paused: false, ..old(self)@ }),
            final(self)@.wf(),
    {
        proof {
            use_type_invariant(&*self);
        }
        self.paused = false;
    }

    /// Pause when running, resume when paused.
    pub fn toggle_pause(&mut self)
        ensures
            final(self)@ == (EngineView { paused: !old(self)@.paused, ..old(self)@ }),
            final(self)@.wf(),
    {
        proof {
            use_type_invariant(&*self);
        }
        self.paused = !self.paused;
    }

    /// The snapshot shown to the user interface.
    pub fn state(&self) -> (s: EngineState)
        ensures
            s == self@.observed(),
            self@.wf(),
            s.remaining_secs == self@.remaining,
            s.work_secs == self@.work_secs,
            s.break_secs == self@.break_secs,
            s.phase == if self@.paused {
                Phase::Paused
            } else {
                self@.active
            },
    {
        proof {
            use_type_invariant(self);
        }
        let phase = if self.paused {
            Phase::Paused
        } else {
            self.active_phase
        };
        EngineState {
            phase,
            remaining_secs: self.remaining,
            work_secs: self.work_secs,
            break_secs: self.break_secs,
        }
    }
}

} // verus!
