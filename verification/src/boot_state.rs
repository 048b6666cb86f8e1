//! Per-power-cycle gate state of every motor.
//!
//! A motor starts each daemon lifetime as `Unknown`; telemetry classifies it
//! against its travel band; only the `Homed` state permits `enable`. The
//! classifier may never demote a `Homed` motor — only explicit operator
//! actions (`set_zero`, a successful home) overwrite state unconditionally.
use vstd::prelude::*;

use crate::rolemap::{move_key, RoleMap};
use crate::types::F32Bits;

verus! {

/// One motor's boot-time gate state.
#[derive(Debug)]
pub enum BootState {
    /// No telemetry yet, or the last classification couldn't decide.
    Unknown,
    /// Position read OK but outside the `travel_limits` band.
    OutOfBand { mech_pos_rad: F32Bits, min_rad: F32Bits, max_rad: F32Bits },
    /// Auto-recovery is driving the motor back toward the band.
    AutoRecovering { from_rad: F32Bits, target_rad: F32Bits, progress_rad: F32Bits },
    /// Position confirmed inside band, not yet homed by the operator.
    InBand,
    /// The slow-ramp homer reached its target; the only state that permits enable.
    Homed,
    /// Firmware zero offset disagrees with the commissioned record.
    OffsetChanged { stored_rad: F32Bits, current_rad: F32Bits },
    /// The boot orchestrator is driving the motor to its home pose.
    AutoHoming { from_rad: F32Bits, target_rad: F32Bits, progress_rad: F32Bits },
    /// The boot orchestrator's homer aborted.
    HomeFailed { reason: String, last_pos_rad: F32Bits },
}

/// Two states are the same state (strings compared by content).
pub open spec fn same_state(a: BootState, b: BootState) -> bool {
    match (a, b) {
        (BootState::HomeFailed { reason: r1, last_pos_rad: p1 }, BootState::HomeFailed {
            reason: r2,
            last_pos_rad: p2,
        }) => r1@ == r2@ && p1 == p2,
        (BootState::HomeFailed { .. }, _) => false,
        (_, BootState::HomeFailed { .. }) => false,
        _ => a == b,
    }
}

pub open spec fn permits_enable_spec(s: BootState) -> bool {
    s is Homed
}

/// Zero progress, as stored when a drive starts.
pub open spec fn zero_progress() -> F32Bits {
    F32Bits(0)
}

impl BootState {
    /// Does this state allow the enable handler to proceed? Only `Homed` does.
    pub fn permits_enable(&self) -> (b: bool)
        ensures
            b == permits_enable_spec(*self),
    {
        matches!(self, BootState::Homed)
    }

    /// Is the auto-recovery routine currently driving this motor?
    pub fn is_auto_recovering(&self) -> (b: bool)
        ensures
            b == (*self is AutoRecovering),
    {
        matches!(self, BootState::AutoRecovering { .. })
    }

    /// A copy of this state.
    pub fn duplicate(&self) -> (r: BootState)
        ensures
            same_state(r, *self),
    {
        match self {
            BootState::Unknown => BootState::Unknown,
            BootState::OutOfBand { mech_pos_rad, min_rad, max_rad } => BootState::OutOfBand {
                mech_pos_rad: *mech_pos_rad,
                min_rad: *min_rad,
                max_rad: *max_rad,
            },
            BootState::AutoRecovering { from_rad, target_rad, progress_rad } =>
                BootState::AutoRecovering {
                from_rad: *from_rad,
                target_rad: *target_rad,
                progress_rad: *progress_rad,
            },
            BootState::InBand => BootState::InBand,
            BootState::Homed => BootState::Homed,
            BootState::OffsetChanged { stored_rad, current_rad } => BootState::OffsetChanged {
                stored_rad: *stored_rad,
                current_rad: *current_rad,
            },
            BootState::AutoHoming { from_rad, target_rad, progress_rad } =>
                BootState::AutoHoming {
                from_rad: *from_rad,
                target_rad: *target_rad,
                progress_rad: *progress_rad,
            },
            BootState::HomeFailed { reason, last_pos_rad } => BootState::HomeFailed {
                reason: reason.clone(),
                last_pos_rad: *last_pos_rad,
            },
        }
    }

    /// Are the two states the same state?
    pub fn same_as(&self, other: &BootState) -> (b: bool)
        ensures
            b == same_state(*self, *other),
    {
        match (self, other) {
            (BootState::Unknown, BootState::Unknown) => true,
            (
                BootState::OutOfBand { mech_pos_rad: a1, min_rad: a2, max_rad: a3 },
                BootState::OutOfBand { mech_pos_rad: b1, min_rad: b2, max_rad: b3 },
            ) => *a1 == *b1 && *a2 == *b2 && *a3 == *b3,
            (
                BootState::AutoRecovering { from_rad: a1, target_rad: a2, progress_rad: a3 },
                BootState::AutoRecovering { from_rad: b1, target_rad: b2, progress_rad: b3 },
            ) => *a1 == *b1 && *a2 == *b2 && *a3 == *b3,
            (BootState::InBand, BootState::InBand) => true,
            (BootState::Homed, BootState::Homed) => true,
            (
                BootState::OffsetChanged { stored_rad: a1, current_rad: a2 },
                BootState::OffsetChanged { stored_rad: b1, current_rad: b2 },
            ) => *a1 == *b1 && *a2 == *b2,
            (
                BootState::AutoHoming { from_rad: a1, target_rad: a2, progress_rad: a3 },
                BootState::AutoHoming { from_rad: b1, target_rad: b2, progress_rad: b3 },
            ) => *a1 == *b1 && *a2 == *b2 && *a3 == *b3,
            (
                BootState::HomeFailed { reason: r1, last_pos_rad: p1 },
                BootState::HomeFailed { reason: r2, last_pos_rad: p2 },
            ) => *r1 == *r2 && *p1 == *p2,
            _ => false,
        }
    }
}

/// Outcome of one classification / transition attempt.
#[derive(Debug)]
pub enum ClassifyOutcome {
    /// State did not change.
    Unchanged,
    /// State changed from `prev` to `new`.
    Changed { new: BootState, prev: BootState },
}

/// What the telemetry loop learned about a motor's position relative to its
/// band. The comparison itself is done by the caller on the measured angle.
#[derive(Debug, Clone, Copy)]
pub enum BandReading {
    /// No travel band on file for the motor.
    NoBand,
    /// The reported position is NaN or infinite.
    NonFinite,
    /// The principal angle lies inside `[min_rad, max_rad]`.
    Inside,
    /// The principal angle lies outside the band.
    Outside { principal_rad: F32Bits, min_rad: F32Bits, max_rad: F32Bits },
}

/// State the classifier proposes for a reading.
pub open spec fn classified(r: BandReading) -> BootState {
    match r {
        BandReading::NoBand => BootState::InBand,
        BandReading::NonFinite => BootState::Unknown,
        BandReading::Inside => BootState::InBand,
        BandReading::Outside { principal_rad, min_rad, max_rad } => BootState::OutOfBand {
            mech_pos_rad: principal_rad,
            min_rad,
            max_rad,
        },
    }
}

/// State of `role` in `m` (untracked motors are `Unknown`).
pub open spec fn state_in(m: Map<Seq<char>, BootState>, role: Seq<char>) -> BootState {
    if m.contains_key(role) {
        m[role]
    } else {
        BootState::Unknown
    }
}

/// Would a telemetry-driven transition of `role` to `new` be refused?
pub open spec fn transition_refused(m: Map<Seq<char>, BootState>, role: Seq<char>, new: BootState) -> bool {
    (state_in(m, role) is Homed && !(new is Homed)) || same_state(state_in(m, role), new)
}

/// Per-motor boot-state table (role → state).
pub struct BootStates {
    table: RoleMap<BootState>,
}

impl BootStates {
    pub closed spec fn wf(self) -> bool {
        self.table.wf()
    }

    /// The states of all tracked motors.
    pub closed spec fn view(self) -> Map<Seq<char>, BootState> {
        self.table@
    }

    /// Every motor starts untracked (`Unknown`).
    pub fn new() -> (s: BootStates)
        ensures
            s.wf(),
            s@ == Map::<Seq<char>, BootState>::empty(),
    {
        BootStates { table: RoleMap::new() }
    }

    /// Current state of `role`, `Unknown` when not tracked yet.
    pub fn current(&self, role: &str) -> (r: BootState)
        requires
            self.wf(),
        ensures
            same_state(r, state_in(self@, role@)),
    {
        match self.table.get(role) {
            Some(s) => s.duplicate(),
            None => BootState::Unknown,
        }
    }

    /// Unconditionally set `role`'s state (explicit operator or orchestrator action).
    pub fn force_set(&mut self, role: &str, new: BootState)
        requires
            old(self).wf(),
        ensures
            final(self).wf(),
            final(self)@ == old(self)@.insert(role@, new),
    {
        self.table.insert(role, new);
    }

    /// `set_zero` succeeded: the previous home attestation is void.
    pub fn reset_to_unknown(&mut self, role: &str)
        requires
            old(self).wf(),
        ensures
            final(self).wf(),
            final(self)@ == old(self)@.insert(role@, BootState::Unknown),
    {
        self.force_set(role, BootState::Unknown);
    }

    /// The slow-ramp homer reached its target.
    pub fn mark_homed(&mut self, role: &str)
        requires
            old(self).wf(),
        ensures
            final(self).wf(),
            final(self)@ == old(self)@.insert(role@, BootState::Homed),
    {
        self.force_set(role, BootState::Homed);
    }

    /// Firmware offset disagrees with the commissioning record.
    pub fn force_set_offset_changed(&mut self, role: &str, stored_rad: F32Bits, current_rad: F32Bits)
        requires
            old(self).wf(),
        ensures
            final(self).wf(),
            final(self)@ == old(self)@.insert(
                role@,
                BootState::OffsetChanged { stored_rad, current_rad },
            ),
    {
        self.force_set(role, BootState::OffsetChanged { stored_rad, current_rad });
    }

    /// The boot orchestrator starts driving `role` home.
    pub fn force_set_auto_homing(&mut self, role: &str, from_rad: F32Bits, target_rad: F32Bits)
        requires
            old(self).wf(),
        ensures
            final(self).wf(),
            final(self)@ == old(self)@.insert(
                role@,
                BootState::AutoHoming { from_rad, target_rad, progress_rad: zero_progress() },
            ),
    {
        self.force_set(
            role,
            BootState::AutoHoming { from_rad, target_rad, progress_rad: F32Bits(0) },
        );
    }

    /// The boot orchestrator's homer aborted.
    pub fn force_set_home_failed(&mut self, role: &str, reason: String, last_pos_rad: F32Bits)
        requires
            old(self).wf(),
        ensures
            final(self).wf(),
            final(self)@ == old(self)@.insert(role@, BootState::HomeFailed { reason, last_pos_rad }),
    {
        self.force_set(role, BootState::HomeFailed { reason, last_pos_rad });
    }

    /// A motor was renamed: its state now lives under `new_role`.
    pub fn rename_role(&mut self, role: &str, new_role: &str)
        requires
            old(self).wf(),
        ensures
            final(self).wf(),
            final(self)@ == move_key(old(self)@, role@, new_role@),
    {
        match self.table.remove(role) {
            Some(s) => self.table.insert(new_role, s),
            None => {},
        }
    }

    /// Telemetry-driven transition: refuses to demote `Homed` and reports
    /// `Unchanged` when the state is already `new`.
    pub fn transition(&mut self, role: &str, new: BootState) -> (out: ClassifyOutcome)
        requires
            old(self).wf(),
        ensures
            final(self).wf(),
            transition_refused(old(self)@, role@, new) ==> final(self)@ == old(self)@ && out is Unchanged,
            !transition_refused(old(self)@, role@, new) ==> final(self)@ == old(self)@.insert(role@, new)
                && match out {
                ClassifyOutcome::Changed { new: n, prev: p } => same_state(n, new) && same_state(
                    p,
                    state_in(old(self)@, role@),
                ),
                ClassifyOutcome::Unchanged => false,
            },
    {
        let prev = self.current(role);
        if matches!(prev, BootState::Homed) && !matches!(new, BootState::Homed) {
            return ClassifyOutcome::Unchanged;
        }
        if prev.same_as(&new) {
            return ClassifyOutcome::Unchanged;
        }
        let reported = new.duplicate();
        self.table.insert(role, new);
        ClassifyOutcome::Changed { new: reported, prev }
    }

    /// Classify `role` from the latest band reading (see [`BandReading`]).
    pub fn classify(&mut self, role: &str, reading: BandReading) -> (out: ClassifyOutcome)
        requires
            old(self).wf(),
        ensures
            final(self).wf(),
            transition_refused(old(self)@, role@, classified(reading)) ==> final(self)@ == old(
                self,
            )@ && out is Unchanged,
            !transition_refused(old(self)@, role@, classified(reading)) ==> final(self)@ == old(
                self,
            )@.insert(role@, classified(reading)) && match out {
                ClassifyOutcome::Changed { new: n, prev: p } => same_state(n, classified(reading))
                    && same_state(p, state_in(old(self)@, role@)),
                ClassifyOutcome::Unchanged => false,
            },
    {
        let new = match reading {
            BandReading::NoBand => BootState::InBand,
            BandReading::NonFinite => BootState::Unknown,
            BandReading::Inside => BootState::InBand,
            BandReading::Outside { principal_rad, min_rad, max_rad } => BootState::OutOfBand {
                mech_pos_rad: principal_rad,
                min_rad,
                max_rad,
            },
        };
        self.transition(role, new)
    }

    /// Mark `role` as being driven by auto-recovery (telemetry-style transition).
    pub fn mark_auto_recovering(&mut self, role: &str, from_rad: F32Bits, target_rad: F32Bits)
        requires
            old(self).wf(),
        ensures
            final(self).wf(),
            ({
                let new = BootState::AutoRecovering {
                    from_rad,
                    target_rad,
                    progress_rad: zero_progress(),
                };
                &&& transition_refused(old(self)@, role@, new) ==> final(self)@ == old(self)@
                &&& !transition_refused(old(self)@, role@, new) ==> final(self)@ == old(
                    self,
                )@.insert(role@, new)
            }),
    {
        let _ = self.transition(
            role,
            BootState::AutoRecovering { from_rad, target_rad, progress_rad: F32Bits(0) },
        );
    }

    /// Update the progress of an `AutoRecovering` state; other states are left alone.
    pub fn update_auto_recovery_progress(&mut self, role: &str, progress_rad: F32Bits)
        requires
            old(self).wf(),
        ensures
            final(self).wf(),
            match state_in(old(self)@, role@) {
                BootState::AutoRecovering { from_rad, target_rad, .. } => final(self)@ == old(
                    self,
                )@.insert(role@, BootState::AutoRecovering { from_rad, target_rad, progress_rad }),
                _ => final(self)@ == old(self)@,
            },
    {
        let cur = self.current(role);
        if let BootState::AutoRecovering { from_rad, target_rad, .. } = cur {
            self.table.insert(role, BootState::AutoRecovering { from_rad, target_rad, progress_rad });
        }
    }

    /// Update the progress of an `AutoHoming` state; other states are left alone.
    pub fn update_auto_homing_progress(&mut self, role: &str, progress_rad: F32Bits)
        requires
            old(self).wf(),
        ensures
            final(self).wf(),
            match state_in(old(self)@, role@) {
                BootState::AutoHoming { from_rad, target_rad, .. } => final(self)@ == old(
                    self,
                )@.insert(role@, BootState::AutoHoming { from_rad, target_rad, progress_rad }),
                _ => final(self)@ == old(self)@,
            },
    {
        let cur = self.current(role);
        if let BootState::AutoHoming { from_rad, target_rad, .. } = cur {
            self.table.insert(role, BootState::AutoHoming { from_rad, target_rad, progress_rad });
        }
    }
}

/// Spec of a telemetry-driven transition on the whole table.
pub open spec fn after_transition(
    m: Map<Seq<char>, BootState>,
    role: Seq<char>,
    new: BootState,
) -> Map<Seq<char>, BootState> {
    if transition_refused(m, role, new) {
        m
    } else {
        m.insert(role, new)
    }
}

/// Telemetry can never demote a homed motor: after any classification the
/// motor is still `Homed`.
pub proof fn law_classify_never_demotes_homed(
    m: Map<Seq<char>, BootState>,
    role: Seq<char>,
    reading: BandReading,
)
    requires
        state_in(m, role) is Homed,
    ensures
        state_in(after_transition(m, role, classified(reading)), role) is Homed,
{
}

/// Only `Homed` lets a motor be enabled; every other state refuses.
pub proof fn law_only_homed_permits_enable(s: BootState)
    ensures
        permits_enable_spec(s) <==> s is Homed,
{
}

/// A transition touches only the motor it names.
pub proof fn law_transition_is_local(
    m: Map<Seq<char>, BootState>,
    role: Seq<char>,
    other: Seq<char>,
    new: BootState,
)
    requires
        other != role,
    ensures
        state_in(after_transition(m, role, new), other) == state_in(m, other),
{
}

/// Applying the same transition twice changes nothing the second time.
pub proof fn law_transition_idempotent(
    m: Map<Seq<char>, BootState>,
    role: Seq<char>,
    new: BootState,
)
    ensures
        after_transition(after_transition(m, role, new), role, new) == after_transition(
            m,
            role,
            new,
        ),
{
    let m1 = after_transition(m, role, new);
    if !transition_refused(m, role, new) {
        assert(state_in(m1, role) == new);
        if new is HomeFailed {
            assert(same_state(new, new));
        }
        assert(transition_refused(m1, role, new));
    }
}

/// A classification from an untracked or unclassified motor always lands on
/// the reading's state.
pub proof fn law_first_classification_lands(
    m: Map<Seq<char>, BootState>,
    role: Seq<char>,
    reading: BandReading,
)
    requires
        state_in(m, role) is Unknown,
    ensures
        state_in(after_transition(m, role, classified(reading)), role) == classified(reading),
{
}

/// After `set_zero`, a homed motor is `Unknown` again and so cannot be enabled.
pub proof fn law_set_zero_revokes_enable(m: Map<Seq<char>, BootState>, role: Seq<char>)
    ensures
        !permits_enable_spec(state_in(m.insert(role, BootState::Unknown), role)),
{
}

/// Renaming a motor carries its boot state to the new role, leaves the old
/// role untracked (`Unknown`) and touches no other motor.
pub proof fn law_rename_carries_state(
    m: Map<Seq<char>, BootState>,
    from: Seq<char>,
    to: Seq<char>,
    other: Seq<char>,
)
    requires
        from != to,
        other != from,
        other != to,
    ensures
        m.contains_key(from) ==> state_in(move_key(m, from, to), to) == state_in(m, from),
        m.contains_key(from) ==> state_in(move_key(m, from, to), from) is Unknown,
        state_in(move_key(m, from, to), other) == state_in(m, other),
{
}

} // verus!
