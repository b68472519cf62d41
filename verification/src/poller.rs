//! The database-change poller: while a window is visible it reads SQLite's
//! `data_version` on every tick and announces each change once.

use vstd::prelude::*;

verus! {

/// Consecutive failed reads after which polling stops.
pub const MAX_CONSECUTIVE_READ_FAILURES: u8 = 3;

#[derive(Debug, Clone, Copy, PartialEq, Eq)]
pub enum Emit {
    DbChanged,
}

/// The last data version announced and the number of failed reads in a row.
#[derive(Debug, Clone, Copy, PartialEq, Eq)]
pub struct PollerState {
    last_seen: i64,
    consecutive_read_failures: u8,
}

/// The state after a tick and what the tick announces. A hidden tick
/// changes nothing; a failed visible read counts one more failure (up to
/// 255); a successful read clears the failures and announces a change when
/// the version differs from the last one seen.
pub closed spec fn tick_spec(s: PollerState, visible: bool, data_version: Option<i64>) -> (PollerState, Option<Emit>) {
    if !visible {
        (s, None)
    } else {
        match data_version {
            None => (
                PollerState {
                    consecutive_read_failures: if s.consecutive_read_failures == 255 { 255 } else { (s.consecutive_read_failures + 1) as u8 },
                    ..s
                },
                None,
            ),
            Some(v) => {
                if v == s.last_seen {
                    (PollerState { consecutive_read_failures: 0, ..s }, None)
                } else {
                    (PollerState { last_seen: v, consecutive_read_failures: 0 }, Some(Emit::DbChanged))
                }
            }
        }
    }
}

/// Whether enough reads failed in a row to stop polling.
pub open spec fn exhausted_spec(s: PollerState) -> bool {
    s.spec_failures() >= MAX_CONSECUTIVE_READ_FAILURES
}

impl PollerState {
    pub closed spec fn spec_last_seen(self) -> i64 {
        self.last_seen
    }

    pub closed spec fn spec_failures(self) -> u8 {
        self.consecutive_read_failures
    }

    /// A poller that has seen `baseline` and no failure.
    pub fn new(baseline: i64) -> (s: Self)
        ensures
            s.spec_last_seen() == baseline,
            s.spec_failures() == 0,
            s == PollerState::new_spec(baseline),
    {
        PollerState { last_seen: baseline, consecutive_read_failures: 0 }
    }

    /// Takes one tick: whether a window is visible, and the data version read
    /// (`None` when the read failed).
    pub fn tick(&mut self, visible: bool, data_version: Option<i64>) -> (e: Option<Emit>)
        ensures
            (*final(self), e) == tick_spec(*old(self), visible, data_version),
            !visible ==> *final(self) == *old(self) && e is None,
            visible && data_version is None ==> e is None
                && final(self).spec_last_seen() == old(self).spec_last_seen()
                && final(self).spec_failures() == (if old(self).spec_failures() == 255 { 255 } else { old(self).spec_failures() + 1 }),
            visible && data_version is Some ==> final(self).spec_failures() == 0
                && final(self).spec_last_seen() == data_version.unwrap()
                && (e == (if data_version.unwrap() == old(self).spec_last_seen() { None } else { Some(Emit::DbChanged) })),
    {
        if !visible {
            return None;
        }
        let data_version = match data_version {
            Some(v) => v,
            None => {
                self.consecutive_read_failures = self.consecutive_read_failures.saturating_add(1);
                return None;
            }
        };
        self.consecutive_read_failures = 0;
        if data_version == self.last_seen {
            return None;
        }
        self.last_seen = data_version;
        Some(Emit::DbChanged)
    }

    /// Whether enough reads failed in a row to stop polling.
    pub fn read_failures_exhausted(&self) -> (b: bool)
        ensures
            b == exhausted_spec(*self),
    {
        self.consecutive_read_failures >= MAX_CONSECUTIVE_READ_FAILURES
    }

    /// The last data version announced (or the baseline).
    pub fn last_seen(&self) -> (v: i64)
        ensures
            v == self.spec_last_seen(),
    {
        self.last_seen
    }

    /// How many reads failed in a row.
    pub fn consecutive_read_failures(&self) -> (n: u8)
        ensures
            n == self.spec_failures(),
    {
        self.consecutive_read_failures
    }
}

// ---------------------------------------------------------------------
// One tick of the polling loop
// ---------------------------------------------------------------------

/// What a tick found out: no window was visible, the read failed, or the
/// read gave a version.
#[derive(Debug, Clone, Copy, PartialEq, Eq)]
pub enum PollEvent {
    Hidden,
    ReadFailed,
    Read(i64),
}

/// What the loop must do after a tick.
#[derive(Debug, Clone, Copy, PartialEq, Eq)]
pub enum PollAction {
    Continue,
    Announce(Emit),
    StopAfterReadFailures,
}

/// The state and action after a tick's event: hidden ticks read nothing;
/// a failed read stops the loop once failures are exhausted; a changed
/// version is announced.
pub open spec fn on_tick_spec(s: PollerState, event: PollEvent) -> (PollerState, PollAction) {
    match event {
        PollEvent::Hidden => (tick_spec(s, false, None).0, PollAction::Continue),
        PollEvent::ReadFailed => {
            let next = tick_spec(s, true, None).0;
            (next, if exhausted_spec(next) { PollAction::StopAfterReadFailures } else { PollAction::Continue })
        }
        PollEvent::Read(v) => {
            let (next, e) = tick_spec(s, true, Some(v));
            (next, match e { Some(em) => PollAction::Announce(em), None => PollAction::Continue })
        }
    }
}

/// Decides a tick: the next state and the action to take.
pub fn on_tick(state: &mut PollerState, event: PollEvent) -> (a: PollAction)
    ensures
        (*final(state), a) == on_tick_spec(*old(state), event),
{
    match event {
        PollEvent::Hidden => {
            let _ = state.tick(false, None);
            PollAction::Continue
        }
        PollEvent::ReadFailed => {
            let _ = state.tick(true, None);
            if state.read_failures_exhausted() {
                PollAction::StopAfterReadFailures
            } else {
                PollAction::Continue
            }
        }
        PollEvent::Read(v) => {
            match state.tick(true, Some(v)) {
                Some(e) => PollAction::Announce(e),
                None => PollAction::Continue,
            }
        }
    }
}

// ---------------------------------------------------------------------
// The driver
// ---------------------------------------------------------------------

/// Whether any window is visible.
pub trait Visibility {
    fn any_visible(&self) -> bool;
}

/// Announces an event to the windows.
pub trait Emitter {
    fn emit(&self, event: Emit) -> Result<(), String>;
}

/// Reads the database's data version.
pub trait DataVersionReader {
    fn read(&self) -> Result<i64, String>;
}

/// Reports a problem the poller cannot recover from.
pub trait WarningSink {
    fn warn(&self, message: &str);
}

#[derive(Debug, Clone, Copy, PartialEq, Eq)]
pub enum PollerOutcome {
    ClockStopped,
    ReadFailures,
}

#[derive(Debug, Clone, Copy, PartialEq, Eq)]
pub struct PollerReport {
    pub outcome: PollerOutcome,
}

/// The poller with its collaborators; the clock that paces it is driven by
/// the caller, one `poll_once` per tick.
pub struct PollerDriver<V, E, C, R, W> {
    visibility: V,
    emitter: E,
    clock: C,
    reader: R,
    warnings: W,
    state: PollerState,
}

impl<V, E, C, R, W> PollerDriver<V, E, C, R, W> {
    pub closed spec fn spec_state(self) -> PollerState {
        self.state
    }

    /// The clock that paces the driver.
    pub closed spec fn spec_clock(self) -> C {
        self.clock
    }

    pub fn new(visibility: V, emitter: E, clock: C, reader: R, warnings: W, baseline: i64) -> (d: Self)
        ensures
            d.spec_state() == PollerState::new_spec(baseline),
    {
        PollerDriver { visibility, emitter, clock, reader, warnings, state: PollerState::new(baseline) }
    }

    /// The clock, for the caller that waits on it between ticks.
    pub fn clock_mut(&mut self) -> (c: &mut C)
        ensures
            *c == old(self).spec_clock(),
            final(self).spec_clock() == *final(c),
            final(self).spec_state() == old(self).spec_state(),
    {
        &mut self.clock
    }

    /// The current state.
    pub fn state(&self) -> (s: PollerState)
        ensures
            s == self.spec_state(),
    {
        self.state
    }
}

impl PollerState {
    pub closed spec fn new_spec(baseline: i64) -> PollerState {
        PollerState { last_seen: baseline, consecutive_read_failures: 0 }
    }
}

/// What one tick of the driver did: whether a window was visible, the read
/// it made (`None` when it made none; `Some(None)` when the read failed),
/// the announcement it made (`None` when it made none; `Some(ok)` otherwise),
/// and whether it warned.
#[derive(Debug, Clone, Copy, PartialEq, Eq)]
pub struct TickObservation {
    pub visible: bool,
    pub read: Option<Option<i64>>,
    pub announced: Option<bool>,
    pub warned: bool,
}

/// The event a tick's observations amount to.
pub open spec fn event_of(o: TickObservation) -> PollEvent {
    if !o.visible {
        PollEvent::Hidden
    } else {
        match o.read {
            Some(Some(v)) => PollEvent::Read(v),
            _ => PollEvent::ReadFailed,
        }
    }
}

/// A tick went from `before` to `after`, reporting `r`, as its observations
/// `o` require: exactly one read when a window is visible and none otherwise;
/// an announcement exactly when the version read is new; a failed
/// announcement keeps the old state, so the change is announced again on
/// the next tick; a single warning, and the report, exactly when reads have
/// failed three times in a row.
pub open spec fn observed_tick(before: PollerState, o: TickObservation, after: PollerState, r: Option<PollerReport>) -> bool {
    let (next, action) = on_tick_spec(before, event_of(o));
    &&& (o.read is Some <==> o.visible)
    &&& (o.announced is Some <==> action is Announce)
    &&& (o.warned <==> action is StopAfterReadFailures)
    &&& r == (if action is StopAfterReadFailures { Some(PollerReport { outcome: PollerOutcome::ReadFailures }) } else { None })
    &&& after == (if o.announced == Some(false) { before } else { next })
}

impl<V: Visibility, E: Emitter, C, R: DataVersionReader, W: WarningSink> PollerDriver<V, E, C, R, W> {
    /// One tick: reads the version only when a window is visible, announces a
    /// change (keeping the old state when the announcement fails, so it is
    /// retried), and stops with a single warning once reads keep failing.
    pub fn poll_once(&mut self) -> (r: Option<PollerReport>)
        ensures
            exists|o: TickObservation| #[trigger] observed_tick(old(self).spec_state(), o, final(self).spec_state(), r),
    {
        let (r, _) = self.poll_once_observed();
        r
    }

    /// One tick, with what it observed and did.
    pub fn poll_once_observed(&mut self) -> (out: (Option<PollerReport>, TickObservation))
        ensures
            observed_tick(old(self).spec_state(), out.1, final(self).spec_state(), out.0),
    {
        let visible = self.visibility.any_visible();
        let read: Option<Option<i64>> = if !visible {
            None
        } else {
            match self.reader.read() {
                Ok(v) => Some(Some(v)),
                Err(_) => Some(None),
            }
        };
        let event = match read {
            None => PollEvent::Hidden,
            Some(Some(v)) => PollEvent::Read(v),
            Some(None) => PollEvent::ReadFailed,
        };
        let previous = self.state;
        let action = on_tick(&mut self.state, event);
        let mut announced: Option<bool> = None;
        let mut warned = false;
        let r = match action {
            PollAction::Continue => None,
            PollAction::Announce(e) => {
                if self.emitter.emit(e).is_err() {
                    self.state = previous;
                    announced = Some(false);
                } else {
                    announced = Some(true);
                }
                None
            }
            PollAction::StopAfterReadFailures => {
                self.warnings.warn("database change poller stopped after three consecutive read failures");
                warned = true;
                Some(PollerReport { outcome: PollerOutcome::ReadFailures })
            }
        };
        let o = TickObservation { visible, read, announced, warned };
        proof { assert(event_of(o) == event); }
        (r, o)
    }
}

// ---------------------------------------------------------------------
// Laws
// ---------------------------------------------------------------------

/// What a tick does, case by case: a hidden tick changes nothing; a failed
/// visible read announces nothing, keeps the version and counts one more
/// failure (staying at 255 once there); a successful read clears the
/// failures, keeps the version read, and announces exactly a new version.
pub proof fn lemma_tick_cases(s: PollerState, visible: bool, data_version: Option<i64>)
    ensures
        !visible ==> tick_spec(s, visible, data_version) == (s, None::<Emit>),
        visible && data_version is None ==> tick_spec(s, visible, data_version).1 is None
            && tick_spec(s, visible, data_version).0.spec_last_seen() == s.spec_last_seen()
            && tick_spec(s, visible, data_version).0.spec_failures() == (if s.spec_failures() == 255 { 255 } else { s.spec_failures() + 1 }),
        visible && data_version is Some ==> tick_spec(s, visible, data_version).0.spec_failures() == 0
            && tick_spec(s, visible, data_version).0.spec_last_seen() == data_version.unwrap()
            && tick_spec(s, visible, data_version).1 == (if data_version.unwrap() == s.spec_last_seen() { None } else { Some(Emit::DbChanged) }),
{
}

/// A hidden tick neither announces anything nor changes the state.
pub proof fn lemma_hidden_tick_is_inert(s: PollerState, data_version: Option<i64>)
    ensures
        tick_spec(s, false, data_version) == (s, None::<Emit>),
{
}

/// A change is announced once: reading the same version again announces nothing.
pub proof fn lemma_change_announced_once(s: PollerState, v: i64)
    ensures
        tick_spec(tick_spec(s, true, Some(v)).0, true, Some(v)).1 is None,
        (tick_spec(s, true, Some(v)).1 is Some) <==> v != s.spec_last_seen(),
{
}

/// Only visible read failures count, and a successful read clears them.
pub proof fn lemma_failures_count_visible_reads_only(s: PollerState, v: i64)
    ensures
        tick_spec(s, false, None).0.spec_failures() == s.spec_failures(),
        s.spec_failures() < 255 ==> tick_spec(s, true, None).0.spec_failures() == s.spec_failures() + 1,
        tick_spec(s, true, Some(v)).0.spec_failures() == 0,
        tick_spec(s, true, None).0.spec_last_seen() == s.spec_last_seen(),
{
}

/// From a fresh state, the loop stops exactly at the third failed read in a
/// row, not before.
pub proof fn lemma_stops_at_third_failure(baseline: i64)
    ensures
        ({
            let s0 = PollerState::new_spec(baseline);
            let (s1, a1) = on_tick_spec(s0, PollEvent::ReadFailed);
            let (s2, a2) = on_tick_spec(s1, PollEvent::ReadFailed);
            let (s3, a3) = on_tick_spec(s2, PollEvent::ReadFailed);
            &&& a1 == PollAction::Continue
            &&& a2 == PollAction::Continue
            &&& a3 == PollAction::StopAfterReadFailures
        }),
{
}

/// A change that happened while hidden is announced on the first visible tick.
pub proof fn lemma_hidden_change_announced_when_visible(s: PollerState, v: i64)
    requires
        v != s.spec_last_seen(),
    ensures
        ({
            let (s1, a1) = on_tick_spec(s, PollEvent::Hidden);
            let (s2, a2) = on_tick_spec(s1, PollEvent::Read(v));
            a1 == PollAction::Continue && a2 == PollAction::Announce(Emit::DbChanged)
        }),
{
}

/// The state after a sequence of ticks, each given as (visible, version read).
pub open spec fn run_ticks(s: PollerState, ticks: Seq<(bool, Option<i64>)>) -> PollerState
    decreases ticks.len(),
{
    if ticks.len() == 0 {
        s
    } else {
        tick_spec(run_ticks(s, ticks.drop_last()), ticks.last().0, ticks.last().1).0
    }
}

/// How many ticks of a sequence are visible reads that failed.
pub open spec fn failed_reads(ticks: Seq<(bool, Option<i64>)>) -> nat
    decreases ticks.len(),
{
    if ticks.len() == 0 {
        0
    } else {
        failed_reads(ticks.drop_last()) + (if ticks.last().0 && ticks.last().1 is None { 1nat } else { 0nat })
    }
}

/// No tick of a sequence is a visible successful read.
pub open spec fn no_good_read(ticks: Seq<(bool, Option<i64>)>) -> bool {
    forall|i: int| 0 <= i < ticks.len() ==> !(ticks[i].0 && ticks[i].1 is Some)
}

/// Without a successful read, failed visible reads add up, and hidden ticks
/// leave the count alone; the count stays at 255 once there.
pub proof fn lemma_failures_accumulate(s: PollerState, ticks: Seq<(bool, Option<i64>)>)
    requires
        no_good_read(ticks),
    ensures
        run_ticks(s, ticks).spec_failures() == (if s.spec_failures() + failed_reads(ticks) > 255 { 255 } else { s.spec_failures() + failed_reads(ticks) }),
    decreases ticks.len(),
{
    if ticks.len() > 0 {
        let t = ticks.drop_last();
        assert forall|i: int| 0 <= i < t.len() implies !(t[i].0 && t[i].1 is Some) by {
            assert(t[i] == ticks[i]);
        }
        lemma_failures_accumulate(s, t);
        assert(!(ticks.last().0 && ticks.last().1 is Some)) by {
            assert(ticks.last() == ticks[ticks.len() - 1]);
        }
    }
}

/// After a successful read, polling is exhausted exactly when at least three
/// visible reads have failed since, whatever hidden ticks come between.
pub proof fn lemma_exhausted_after_failures(s: PollerState, v: i64, ticks: Seq<(bool, Option<i64>)>)
    requires
        no_good_read(ticks),
    ensures
        exhausted_spec(run_ticks(tick_spec(s, true, Some(v)).0, ticks)) == (failed_reads(ticks) >= 3),
{
    lemma_failures_accumulate(tick_spec(s, true, Some(v)).0, ticks);
}

/// How many visible reads failed since the last successful visible read
/// (since the start, when there was none); hidden ticks count for nothing.
pub open spec fn failures_since_good_read(ticks: Seq<(bool, Option<i64>)>) -> nat
    decreases ticks.len(),
{
    if ticks.len() == 0 {
        0
    } else if ticks.last().0 {
        match ticks.last().1 {
            Some(_) => 0,
            None => failures_since_good_read(ticks.drop_last()) + 1,
        }
    } else {
        failures_since_good_read(ticks.drop_last())
    }
}

/// From any state, the count of failed reads after a sequence of ticks is
/// those since the last successful read (added to the count it started
/// with when there was none), staying at 255 once there.
proof fn lemma_failures_since_good_read(s: PollerState, ticks: Seq<(bool, Option<i64>)>)
    ensures
        ({
            let k = failures_since_good_read(ticks);
            let base: int = if exists|i: int| 0 <= i < ticks.len() && #[trigger] ticks[i].0 && ticks[i].1 is Some { 0 } else { s.spec_failures() as int };
            run_ticks(s, ticks).spec_failures() == (if base + k > 255 { 255 } else { base + k })
        }),
    decreases ticks.len(),
{
    if ticks.len() > 0 {
        let t = ticks.drop_last();
        lemma_failures_since_good_read(s, t);
        assert forall|i: int| 0 <= i < t.len() implies t[i] == ticks[i] by {}
        if ticks.last().0 && ticks.last().1 is Some {
            assert(ticks[ticks.len() - 1].0 && ticks[ticks.len() - 1].1 is Some);
        } else {
            if exists|i: int| 0 <= i < ticks.len() && #[trigger] ticks[i].0 && ticks[i].1 is Some {
                let i = choose|i: int| 0 <= i < ticks.len() && #[trigger] ticks[i].0 && ticks[i].1 is Some;
                assert(i < t.len());
                assert(t[i].0 && t[i].1 is Some);
            }
            if exists|i: int| 0 <= i < t.len() && #[trigger] t[i].0 && t[i].1 is Some {
                let i = choose|i: int| 0 <= i < t.len() && #[trigger] t[i].0 && t[i].1 is Some;
                assert(ticks[i].0 && ticks[i].1 is Some);
            }
        }
    }
}

/// Starting from a fresh poller, whatever the ticks (hidden ones anywhere),
/// polling is exhausted exactly when at least three visible reads have failed
/// since the last successful visible read, or since the start when there was
/// none.
pub proof fn lemma_read_failures_exhausted_law(baseline: i64, ticks: Seq<(bool, Option<i64>)>)
    ensures
        exhausted_spec(run_ticks(PollerState::new_spec(baseline), ticks)) == (failures_since_good_read(ticks) >= 3),
{
    lemma_failures_since_good_read(PollerState::new_spec(baseline), ticks);
}

}
