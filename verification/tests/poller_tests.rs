//! The poller's reducer and one-tick driver, with scripted collaborators.

use std::cell::{Cell, RefCell};
use std::rc::Rc;

use cadence::poller::{
    on_tick, DataVersionReader, Emit, Emitter, PollAction, PollEvent, PollerDriver, PollerOutcome,
    PollerReport, PollerState, TickObservation, Visibility, WarningSink,
};

#[test]
fn reducer_preserves_baseline_while_hidden_and_emits_on_change() {
    let mut state = PollerState::new(7);
    assert_eq!(state.tick(false, Some(8)), None);
    assert_eq!(state.tick(true, Some(8)), Some(Emit::DbChanged));
    assert_eq!(state.tick(true, Some(8)), None);
}

#[test]
fn reducer_tracks_only_visible_read_failures() {
    let mut state = PollerState::new(7);
    assert_eq!(state.tick(false, None), None);
    assert_eq!(state.consecutive_read_failures(), 0);
    assert_eq!(state.tick(true, None), None);
    assert_eq!(state.consecutive_read_failures(), 1);
    assert_eq!(state.tick(true, Some(7)), None);
    assert_eq!(state.consecutive_read_failures(), 0);
}

struct FixedVisibility(bool);

impl Visibility for FixedVisibility {
    fn any_visible(&self) -> bool {
        self.0
    }
}

#[derive(Default)]
struct RecordingEmitter {
    emitted: Rc<Cell<usize>>,
    fail: bool,
}

impl Emitter for RecordingEmitter {
    fn emit(&self, _event: Emit) -> Result<(), String> {
        if self.fail {
            return Err("emit failed".to_string());
        }
        self.emitted.set(self.emitted.get() + 1);
        Ok(())
    }
}

/// Answers reads from a script (`None` is a failed read) and counts them.
struct ScriptedReader {
    script: RefCell<Vec<Option<i64>>>,
    reads: Cell<usize>,
}

impl ScriptedReader {
    fn new(script: Vec<Option<i64>>) -> Self {
        ScriptedReader { script: RefCell::new(script), reads: Cell::new(0) }
    }
}

impl DataVersionReader for ScriptedReader {
    fn read(&self) -> Result<i64, String> {
        self.reads.set(self.reads.get() + 1);
        let next = self.script.borrow_mut().remove(0);
        next.ok_or_else(|| "read failed".to_string())
    }
}

#[derive(Default)]
struct RecordingWarnings {
    warnings: RefCell<Vec<String>>,
}

impl WarningSink for RecordingWarnings {
    fn warn(&self, message: &str) {
        self.warnings.borrow_mut().push(message.to_string());
    }
}

#[test]
fn hidden_ticks_read_nothing_and_announce_nothing() {
    let mut driver = PollerDriver::new(
        FixedVisibility(false),
        RecordingEmitter::default(),
        (),
        ScriptedReader::new(vec![]),
        RecordingWarnings::default(),
        3,
    );
    for _ in 0..3 {
        assert_eq!(driver.poll_once(), None);
    }
    assert_eq!(driver.state().last_seen(), 3);
}

#[test]
fn visible_change_is_announced_once() {
    let emitter = RecordingEmitter::default();
    let emitted = emitter.emitted.clone();
    let mut driver = PollerDriver::new(
        FixedVisibility(true),
        emitter,
        (),
        ScriptedReader::new(vec![Some(4), Some(4), Some(5)]),
        RecordingWarnings::default(),
        3,
    );
    assert_eq!(driver.poll_once(), None);
    assert_eq!(driver.state().last_seen(), 4);
    assert_eq!(emitted.get(), 1);
    assert_eq!(driver.poll_once(), None);
    assert_eq!(emitted.get(), 1);
    assert_eq!(driver.poll_once(), None);
    assert_eq!(driver.state().last_seen(), 5);
    assert_eq!(emitted.get(), 2);
}

#[test]
fn failed_announcement_keeps_the_old_version_for_a_retry() {
    let emitter = RecordingEmitter { emitted: Rc::new(Cell::new(0)), fail: true };
    let mut driver = PollerDriver::new(
        FixedVisibility(true),
        emitter,
        (),
        ScriptedReader::new(vec![Some(9)]),
        RecordingWarnings::default(),
        1,
    );
    assert_eq!(driver.poll_once(), None);
    assert_eq!(driver.state().last_seen(), 1);
}

#[test]
fn third_consecutive_failure_stops_polling() {
    let mut driver = PollerDriver::new(
        FixedVisibility(true),
        RecordingEmitter::default(),
        (),
        ScriptedReader::new(vec![None, None, Some(2), None, None, None]),
        RecordingWarnings::default(),
        2,
    );
    assert_eq!(driver.poll_once(), None);
    assert_eq!(driver.poll_once(), None);
    assert_eq!(driver.state().consecutive_read_failures(), 2);
    assert_eq!(driver.poll_once(), None);
    assert_eq!(driver.state().consecutive_read_failures(), 0);
    assert_eq!(driver.poll_once(), None);
    assert_eq!(driver.poll_once(), None);
    assert_eq!(
        driver.poll_once(),
        Some(PollerReport { outcome: PollerOutcome::ReadFailures })
    );
}

#[test]
fn tick_decisions_follow_the_events() {
    let mut state = PollerState::new(0);
    assert_eq!(on_tick(&mut state, PollEvent::Hidden), PollAction::Continue);
    assert_eq!(on_tick(&mut state, PollEvent::Read(1)), PollAction::Announce(Emit::DbChanged));
    assert_eq!(on_tick(&mut state, PollEvent::Read(1)), PollAction::Continue);
    assert_eq!(on_tick(&mut state, PollEvent::ReadFailed), PollAction::Continue);
    assert_eq!(on_tick(&mut state, PollEvent::ReadFailed), PollAction::Continue);
    assert!(!state.read_failures_exhausted());
    assert_eq!(on_tick(&mut state, PollEvent::ReadFailed), PollAction::StopAfterReadFailures);
    assert!(state.read_failures_exhausted());
}

#[test]
fn observed_ticks_record_reads_announcements_and_warnings() {
    let mut hidden = PollerDriver::new(
        FixedVisibility(false),
        RecordingEmitter::default(),
        (),
        ScriptedReader::new(vec![]),
        RecordingWarnings::default(),
        3,
    );
    assert_eq!(
        hidden.poll_once_observed(),
        (None, TickObservation { visible: false, read: None, announced: None, warned: false })
    );

    let failing = RecordingEmitter { emitted: Rc::new(Cell::new(0)), fail: true };
    let mut visible = PollerDriver::new(
        FixedVisibility(true),
        failing,
        (),
        ScriptedReader::new(vec![Some(4), None, None, None]),
        RecordingWarnings::default(),
        3,
    );
    assert_eq!(
        visible.poll_once_observed(),
        (None, TickObservation { visible: true, read: Some(Some(4)), announced: Some(false), warned: false })
    );
    assert_eq!(visible.state().last_seen(), 3);
    visible.poll_once_observed();
    visible.poll_once_observed();
    assert_eq!(
        visible.poll_once_observed(),
        (
            Some(PollerReport { outcome: PollerOutcome::ReadFailures }),
            TickObservation { visible: true, read: Some(None), announced: None, warned: true }
        )
    );
}

#[test]
fn failure_count_saturates() {
    let mut state = PollerState::new(0);
    for _ in 0..300 {
        state.tick(true, None);
    }
    assert_eq!(state.consecutive_read_failures(), 255);
    assert_eq!(state.tick(true, Some(5)), Some(Emit::DbChanged));
    assert_eq!(state.consecutive_read_failures(), 0);
    assert_eq!(state.last_seen(), 5);
}
