//! Configuration: mode thresholds and the cadence table.
//!
//! The cadence table maps each mode to a sleep interval, a snapshot
//! eligibility flag, and is configuration-driven: the shipped defaults can be
//! replaced as long as the table's invariant holds (a more responsive mode
//! polls strictly faster).

use vstd::prelude::*;
use crate::model::{mode_rank, Mode, SALIENCE_ONE};

verus! {

/// Salience thresholds at which the mode escalates, in fixed-point
/// millionths.  Each threshold is an inclusive lower bound for the mode it
/// names.
#[derive(Clone, Copy, Debug, PartialEq, Eq, Structural)]
pub struct ModeThresholds {
    pub observe_up: u32,
    pub focus_up: u32,
    pub react_up: u32,
}

impl ModeThresholds {
    /// Thresholds are strictly increasing and within the unit interval.
    pub open spec fn wf(&self) -> bool {
        self.observe_up < self.focus_up
        && self.focus_up < self.react_up
        && self.react_up <= SALIENCE_ONE
    }
}

impl Default for ModeThresholds {
    fn default() -> (t: ModeThresholds)
        ensures
            t.wf(),
            t.observe_up == 250_000,
            t.focus_up == 650_000,
            t.react_up == 900_000,
    {
        ModeThresholds { observe_up: 250_000, focus_up: 650_000, react_up: 900_000 }
    }
}

/// One row of the cadence table: how long to sleep after a cycle in this
/// mode, and whether a snapshot may be written during it.
#[derive(Clone, Copy, Debug, PartialEq, Eq, Structural)]
pub struct CadenceEntry {
    pub sleep_ms: u64,
    pub snapshot_eligible: bool,
}

/// Cadence table: one entry per mode.
#[derive(Clone, Copy, Debug, PartialEq, Eq, Structural)]
pub struct Cadence {
    pub idle: CadenceEntry,
    pub observe: CadenceEntry,
    pub focus: CadenceEntry,
    pub react: CadenceEntry,
}

impl Cadence {
    /// The table row for a mode.
    pub open spec fn spec_entry(&self, mode: Mode) -> CadenceEntry {
        match mode {
            Mode::Idle => self.idle,
            Mode::Observe => self.observe,
            Mode::Focus => self.focus,
            Mode::React => self.react,
        }
    }

    /// A more responsive mode polls strictly faster: the sleep interval
    /// strictly decreases as the mode escalates.
    pub open spec fn wf(&self) -> bool {
        self.idle.sleep_ms > self.observe.sleep_ms
        && self.observe.sleep_ms > self.focus.sleep_ms
        && self.focus.sleep_ms > self.react.sleep_ms
    }

    /// How long the loop suspends after a cycle spent in `mode`, in
    /// milliseconds.
    pub fn sleep_for(&self, mode: Mode) -> (ms: u64)
        ensures
            ms == self.spec_entry(mode).sleep_ms,
    {
        match mode {
            Mode::Idle => self.idle.sleep_ms,
            Mode::Observe => self.observe.sleep_ms,
            Mode::Focus => self.focus.sleep_ms,
            Mode::React => self.react.sleep_ms,
        }
    }

    /// Whether a snapshot may be written during a cycle spent in `mode`.
    pub fn should_snapshot(&self, mode: Mode) -> (b: bool)
        ensures
            b == self.spec_entry(mode).snapshot_eligible,
    {
        match mode {
            Mode::Idle => self.idle.snapshot_eligible,
            Mode::Observe => self.observe.snapshot_eligible,
            Mode::Focus => self.focus.snapshot_eligible,
            Mode::React => self.react.snapshot_eligible,
        }
    }
}

impl Default for Cadence {
    fn default() -> (c: Cadence)
        ensures
            c.wf(),
            c.idle == (CadenceEntry { sleep_ms: 1000, snapshot_eligible: false }),
            c.observe == (CadenceEntry { sleep_ms: 100, snapshot_eligible: true }),
            c.focus == (CadenceEntry { sleep_ms: 20, snapshot_eligible: true }),
            c.react == (CadenceEntry { sleep_ms: 5, snapshot_eligible: false }),
    {
        Cadence {
            idle: CadenceEntry { sleep_ms: 1000, snapshot_eligible: false },
            observe: CadenceEntry { sleep_ms: 100, snapshot_eligible: true },
            focus: CadenceEntry { sleep_ms: 20, snapshot_eligible: true },
            react: CadenceEntry { sleep_ms: 5, snapshot_eligible: false },
        }
    }
}

/// Law: under a well-formed cadence table, escalating the mode strictly
/// shortens the sleep interval.
pub proof fn lemma_cadence_sleep_decreases(c: Cadence, m1: Mode, m2: Mode)
    requires
        c.wf(),
        mode_rank(m1) < mode_rank(m2),
    ensures
        c.spec_entry(m1).sleep_ms > c.spec_entry(m2).sleep_ms,
{
}

} // verus!
