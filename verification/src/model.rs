//! Core data model: operating modes, events, scene, goals, and the working
//! context owned by the control loop.
//!
//! Salience is a scalar attention signal in the closed unit interval.  It is
//! carried as a fixed-point value: an integer number of millionths, so that
//! `SALIENCE_ONE` stands for a salience of one.

use vstd::prelude::*;
use crate::config::ModeThresholds;

verus! {

/// Fixed-point scale: a salience of one, in millionths.
pub const SALIENCE_ONE: u32 = 1_000_000;

/// Operating mode of the control loop, ordered by increasing responsiveness.
#[derive(Clone, Copy, Debug, PartialEq, Eq, Structural)]
pub enum Mode {
    Idle,
    Observe,
    Focus,
    React,
}

/// Rank of a mode under the escalation order Idle < Observe < Focus < React.
pub open spec fn mode_rank(m: Mode) -> int {
    match m {
        Mode::Idle => 0,
        Mode::Observe => 1,
        Mode::Focus => 2,
        Mode::React => 3,
    }
}

impl Mode {
    /// Executable rank under the escalation order Idle < Observe < Focus < React.
    pub fn rank(&self) -> (r: u8)
        ensures
            r as int == mode_rank(*self),
    {
        match self {
            Mode::Idle => 0,
            Mode::Observe => 1,
            Mode::Focus => 2,
            Mode::React => 3,
        }
    }
}

impl Default for Mode {
    fn default() -> (m: Mode)
        ensures
            m == Mode::Idle,
    {
        Mode::Idle
    }
}

/// The mode selected for a salience value under a set of thresholds: the
/// highest mode whose threshold the salience reaches (thresholds are
/// inclusive lower bounds), Idle when none is reached.
pub open spec fn spec_transition(s: u32, th: ModeThresholds) -> Mode {
    if s >= th.react_up {
        Mode::React
    } else if s >= th.focus_up {
        Mode::Focus
    } else if s >= th.observe_up {
        Mode::Observe
    } else {
        Mode::Idle
    }
}

/// Mode state machine: pure, total, deterministic map from a salience value
/// and a set of thresholds to exactly one mode.
pub fn transition(s: u32, th: &ModeThresholds) -> (m: Mode)
    ensures
        m == spec_transition(s, *th),
{
    if s >= th.react_up {
        Mode::React
    } else if s >= th.focus_up {
        Mode::Focus
    } else if s >= th.observe_up {
        Mode::Observe
    } else {
        Mode::Idle
    }
}

/// Law: with strictly increasing thresholds, any salience at or above the
/// observe threshold and below the focus threshold selects Observe; the lower
/// bound of each band is inclusive.
pub proof fn lemma_transition_observe_band(s: u32, th: ModeThresholds)
    requires
        th.wf(),
        th.observe_up <= s < th.focus_up,
    ensures
        spec_transition(s, th) == Mode::Observe,
{
}

/// Law: mode escalation is monotonic in salience.  For a fixed set of
/// thresholds, a larger salience never selects a lower mode.
pub proof fn lemma_transition_monotone(s1: u32, s2: u32, th: ModeThresholds)
    requires
        s1 <= s2,
    ensures
        mode_rank(spec_transition(s1, th)) <= mode_rank(spec_transition(s2, th)),
{
}

/// One unit of externally or internally sourced information.  The monotonic
/// timestamp orders events; the wall-clock timestamp is metadata only.
/// Payloads live in blob storage and are referenced by pointer, with an
/// integrity checksum taken over the payload bytes.
#[derive(Clone, Copy, Debug, PartialEq, Eq, Structural)]
pub struct Event {
    pub ts_mono_ns: u64,
    pub wall_ts_ms: u64,
    pub src: u32,
    pub schema_ver: u16,
    pub seq_no: u64,
    pub payload_ptr: u64,
    pub payload_crc: u32,
}

/// Opaque scene summary: a hash over what the context currently holds, used
/// for change detection.
#[derive(Clone, Copy, Debug, PartialEq, Eq, Structural)]
pub struct Scene {
    pub hash: u64,
}

/// Outcome of a scene update: whether the scene summary changed.
#[derive(Clone, Copy, Debug, PartialEq, Eq, Structural)]
pub struct SceneDelta {
    pub changed: bool,
}

/// A prediction over a time horizon, scored in fixed-point millionths.
#[derive(Clone, Copy, Debug, PartialEq, Eq, Structural)]
pub struct Hypothesis {
    pub horizon_ms: u64,
    pub score: u32,
}

/// A candidate action, scored in fixed-point millionths.
#[derive(Clone, Copy, Debug, PartialEq, Eq, Structural)]
pub struct Candidate {
    pub score: u32,
}

/// An active goal: priority (higher is more urgent) and a monotonic deadline.
#[derive(Clone, Copy, Debug, PartialEq, Eq, Structural)]
pub struct Goal {
    pub priority: i32,
    pub deadline_ms: u64,
}

/// Uncertainty estimate split by origin, in fixed-point millionths.
#[derive(Clone, Copy, Debug, PartialEq, Eq, Structural)]
pub struct Uncertainty {
    pub sensor: u32,
    pub model: u32,
    pub memory: u32,
}

/// Mathematical view of a working context: the same fields with the goal
/// vector abstracted to a sequence.
pub struct CtxView {
    pub mode: Mode,
    pub scene: Scene,
    pub goals: Seq<Goal>,
    pub salience: u32,
}

impl CtxView {
    /// The context a loop starts from when nothing was recovered.
    pub open spec fn initial() -> CtxView {
        CtxView { mode: Mode::Idle, scene: Scene { hash: 0 }, goals: Seq::empty(), salience: 0 }
    }
}

/// The agent's current working memory: mode, scene summary, active goals,
/// and the salience value computed this cycle.  Mutated only by the control
/// loop, once per cycle.
#[derive(Debug)]
pub struct WorkingContext {
    pub mode: Mode,
    pub scene: Scene,
    pub goals: Vec<Goal>,
    pub salience: u32,
}

impl View for WorkingContext {
    type V = CtxView;

    open spec fn view(&self) -> CtxView {
        CtxView { mode: self.mode, scene: self.scene, goals: self.goals@, salience: self.salience }
    }
}

impl Clone for WorkingContext {
    fn clone(&self) -> (r: Self)
        ensures
            r@ == self@,
    {
        let r = WorkingContext {
            mode: self.mode,
            scene: self.scene,
            goals: self.goals.clone(),
            salience: self.salience,
        };
        proof {
            assert(r@.goals =~= self@.goals);
            assert(r@ =~= self@);
        }
        r
    }
}

impl Default for WorkingContext {
    fn default() -> (c: WorkingContext)
        ensures
            c@ == CtxView::initial(),
    {
        let c = WorkingContext {
            mode: Mode::Idle,
            scene: Scene { hash: 0 },
            goals: Vec::new(),
            salience: 0,
        };
        proof {
            assert(c@.goals =~= CtxView::initial().goals);
            assert(c@ =~= CtxView::initial());
        }
        c
    }
}

impl WorkingContext {
    /// Records a freshly computed salience value and re-evaluates the mode
    /// from scratch; scene and goals are untouched.
    pub fn apply_salience(&mut self, s: u32, th: &ModeThresholds)
        ensures
            final(self).salience == s,
            final(self).mode == spec_transition(s, *th),
            final(self).scene == old(self).scene,
            final(self).goals@ == old(self).goals@,
    {
        self.salience = s;
        self.mode = transition(s, th);
    }
}

} // verus!
