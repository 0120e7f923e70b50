//! The capture-zone controller: a bounded volume that swallows nearby
//! objects when closed and releases them when opened.
//!
//! The controller couples a logical target state (`open`), a two-phase scale
//! animation (`Expand` then `Contract`, each over a fixed duration), and the
//! registry of candidate and captured objects. Membership only changes at
//! the `Expand`-completion boundary: closing promotes every candidate to
//! captured, opening demotes every captured object back to a candidate.
//! Time is measured in whole milliseconds; turning the animation progress
//! into an eased scalar and pushing it to the host's geometry is the
//! caller's business, directed by the [`UpdateAction`] each frame returns.

use vstd::prelude::*;

use crate::registry::Registry;

verus! {

/// How long each animation phase runs, in milliseconds.
pub const DURATION_MS: u64 = 250;

/// Elapsed time within one animation phase, saturating at the duration.
#[derive(Clone, Copy, Debug)]
pub struct Animator {
    elapsed: u64,
}

impl Animator {
    /// The elapsed time this animator has accumulated.
    pub closed spec fn elapsed(&self) -> int {
        self.elapsed as int
    }

    pub open spec fn wf(&self) -> bool {
        0 <= self.elapsed() <= DURATION_MS
    }

    pub fn begin() -> (a: Animator)
        ensures
            a.wf(),
            a.elapsed() == 0,
    {
        Animator { elapsed: 0 }
    }

    pub fn advance(&mut self, delta_ms: u64)
        requires
            old(self).wf(),
        ensures
            final(self).wf(),
            final(self).elapsed() == spec_clamp(old(self).elapsed() + delta_ms),
    {
        if delta_ms >= DURATION_MS - self.elapsed {
            self.elapsed = DURATION_MS;
        } else {
            self.elapsed = self.elapsed + delta_ms;
        }
    }

    pub fn is_finished(&self) -> (b: bool)
        ensures
            b == (self.elapsed() == DURATION_MS as int),
    {
        self.elapsed == DURATION_MS
    }

    pub fn elapsed_ms(&self) -> (e: u64)
        ensures
            e as int == self.elapsed(),
    {
        self.elapsed
    }
}

/// Clamp an elapsed time to the phase duration.
pub open spec fn spec_clamp(e: int) -> int {
    if e >= DURATION_MS as int {
        DURATION_MS as int
    } else {
        e
    }
}

/// Which animation phase is active. Exactly one is, and only the two
/// active phases carry an animator.
#[derive(Clone, Copy, Debug)]
pub enum AnimationState {
    Idle,
    Expand(Animator),
    Contract(Animator),
}

/// The phase as a mathematical value: the animator reduced to its elapsed
/// time.
pub enum Phase {
    Idle,
    Expand(int),
    Contract(int),
}

pub open spec fn phase_of(state: AnimationState) -> Phase {
    match state {
        AnimationState::Idle => Phase::Idle,
        AnimationState::Expand(a) => Phase::Expand(a.elapsed()),
        AnimationState::Contract(a) => Phase::Contract(a.elapsed()),
    }
}

/// The zone's whole logical state as a mathematical value.
#[verifier::ext_equal]
pub struct ZoneModel {
    pub is_open: bool,
    pub phase: Phase,
    pub candidates: Set<u64>,
    pub captured: Set<u64>,
}

/// What a well-formed zone state looks like: the two identifier sets are
/// finite and disjoint, and any active animator is within the duration.
pub open spec fn model_wf(m: ZoneModel) -> bool {
    &&& m.candidates.finite()
    &&& m.captured.finite()
    &&& m.candidates.disjoint(m.captured)
    &&& match m.phase {
        Phase::Idle => true,
        Phase::Expand(e) => 0 <= e <= DURATION_MS as int,
        Phase::Contract(c) => 0 <= c <= DURATION_MS as int,
    }
}

/// Does advancing by `delta` complete an `Expand` phase?
pub open spec fn spec_expand_completes(m: ZoneModel, delta: int) -> bool {
    match m.phase {
        Phase::Expand(e) => spec_clamp(e + delta) == DURATION_MS as int,
        _ => false,
    }
}

/// One `update(delta)` step on the zone's logical state. Membership
/// mutates exactly at the `Expand`-completion boundary: when open, every
/// captured object is demoted back to a candidate; when closed, every
/// candidate is promoted to captured.
pub open spec fn spec_step(m: ZoneModel, delta: int) -> ZoneModel {
    match m.phase {
        Phase::Idle => m,
        Phase::Expand(e) => {
            let e2 = spec_clamp(e + delta);
            if e2 == DURATION_MS as int {
                if m.is_open {
                    ZoneModel {
                        phase: Phase::Contract(0),
                        candidates: m.candidates.union(m.captured),
                        captured: Set::<u64>::empty(),
                        ..m
                    }
                } else {
                    ZoneModel {
                        phase: Phase::Contract(0),
                        candidates: Set::<u64>::empty(),
                        captured: m.captured.union(m.candidates),
                        ..m
                    }
                }
            } else {
                ZoneModel { phase: Phase::Expand(e2), ..m }
            }
        },
        Phase::Contract(c) => {
            let c2 = spec_clamp(c + delta);
            if c2 == DURATION_MS as int {
                ZoneModel { phase: Phase::Idle, ..m }
            } else {
                ZoneModel { phase: Phase::Contract(c2), ..m }
            }
        },
    }
}

/// Which geometry handles receive this frame's animated scalar: the
/// invisible collision `field` always tracks the animation, while the
/// interactive `zone` volume only does so while it is visibly acting as a
/// container (growing when opening, shrinking when closing).
#[derive(Clone, Copy, Debug, PartialEq, Eq, Structural)]
pub struct ScaleTargets {
    pub field: bool,
    pub zone: bool,
}

/// The table of (phase, open) to scale targets.
pub open spec fn spec_scale_targets(phase: Phase, is_open: bool) -> ScaleTargets {
    match phase {
        Phase::Idle => ScaleTargets { field: false, zone: false },
        Phase::Expand(_) => ScaleTargets { field: true, zone: is_open },
        Phase::Contract(_) => ScaleTargets { field: true, zone: !is_open },
    }
}

/// The scalar the targets receive this frame: the elapsed time of the phase
/// that was active when `update` was called, after advancing. `Expanding`
/// samples a decelerating 0-to-1 curve, `Contracting` an accelerating
/// 1-to-0 curve, both at `elapsed_ms` out of [`DURATION_MS`].
#[derive(Clone, Copy, Debug, PartialEq, Eq, Structural)]
pub enum FrameScale {
    Inactive,
    Expanding { elapsed_ms: u64 },
    Contracting { elapsed_ms: u64 },
}

/// The membership transition a frame performed, as the identifiers the
/// caller must now capture under, or release from, the zone's transform.
#[derive(Clone, Debug, PartialEq)]
pub enum BoundaryAction {
    Keep,
    Capture(Vec<u64>),
    Release(Vec<u64>),
}

/// Everything the caller must mirror to the host after one `update`.
#[derive(Clone, Debug)]
pub struct UpdateAction {
    pub scale: FrameScale,
    pub targets: ScaleTargets,
    pub boundary: BoundaryAction,
}

/// The capture-zone controller.
pub struct BlackHole {
    is_open: bool,
    animation_state: AnimationState,
    registry: Registry,
}

impl View for BlackHole {
    type V = ZoneModel;

    closed spec fn view(&self) -> ZoneModel {
        ZoneModel {
            is_open: self.is_open,
            phase: phase_of(self.animation_state),
            candidates: self.registry.candidate_ids(),
            captured: self.registry.captured_ids(),
        }
    }
}

impl BlackHole {
    pub closed spec fn wf(&self) -> bool {
        &&& self.registry.wf()
        &&& match self.animation_state {
            AnimationState::Idle => true,
            AnimationState::Expand(a) => a.wf(),
            AnimationState::Contract(a) => a.wf(),
        }
    }

    /// A well-formed zone has a well-formed logical state.
    pub proof fn lemma_wf_model(&self)
        requires
            self.wf(),
        ensures
            model_wf(self@),
    {
        self.registry.lemma_sets_finite();
        self.registry.lemma_sets_disjoint();
    }

    /// An identifier the zone has captured is never also a candidate.
    pub proof fn lemma_capture_exclusive(&self, id: u64)
        requires
            self.wf(),
        ensures
            !(self@.candidates.contains(id) && self@.captured.contains(id)),
    {
        self.registry.lemma_exclusive(id);
    }

    /// A fresh zone: open, idle, owning nothing and tracking nothing.
    pub fn new() -> (z: BlackHole)
        ensures
            z.wf(),
            z@.is_open,
            z@.phase == Phase::Idle,
            z@.candidates == Set::<u64>::empty(),
            z@.captured == Set::<u64>::empty(),
    {
        BlackHole {
            is_open: true,
            animation_state: AnimationState::Idle,
            registry: Registry::new(),
        }
    }

    pub fn open(&self) -> (b: bool)
        ensures
            b == self@.is_open,
    {
        self.is_open
    }

    pub fn in_transition(&self) -> (b: bool)
        ensures
            b == !(self@.phase is Idle),
    {
        !matches!(self.animation_state, AnimationState::Idle)
    }

    pub fn is_expanding(&self) -> (b: bool)
        ensures
            b == (self@.phase is Expand),
    {
        matches!(self.animation_state, AnimationState::Expand(_))
    }

    pub fn is_contracting(&self) -> (b: bool)
        ensures
            b == (self@.phase is Contract),
    {
        matches!(self.animation_state, AnimationState::Contract(_))
    }

    /// Flip the target state and restart the animation from a fresh
    /// `Expand` phase. Any in-flight phase is discarded without running its
    /// completion action: an interrupt-and-restart, not a queue.
    pub fn toggle(&mut self)
        requires
            old(self).wf(),
        ensures
            final(self).wf(),
            final(self)@.is_open == !old(self)@.is_open,
            final(self)@.phase == Phase::Expand(0),
            final(self)@.candidates == old(self)@.candidates,
            final(self)@.captured == old(self)@.captured,
    {
        self.is_open = !self.is_open;
        self.animation_state = AnimationState::Expand(Animator::begin());
    }

    /// Advance the animation by `delta_ms` and return what the caller must
    /// mirror to the host: which geometry handles get this frame's scalar,
    /// and which objects to capture or release at a phase boundary.
    ///
    /// `update` never changes `is_open`; only `toggle` does.
    pub fn update(&mut self, delta_ms: u64) -> (action: UpdateAction)
        requires
            old(self).wf(),
        ensures
            final(self).wf(),
            final(self)@ == spec_step(old(self)@, delta_ms as int),
            final(self)@.is_open == old(self)@.is_open,
            action.targets == spec_scale_targets(old(self)@.phase, old(self)@.is_open),
            match old(self)@.phase {
                Phase::Idle => action.scale is Inactive,
                Phase::Expand(e) => action.scale matches FrameScale::Expanding { elapsed_ms }
                    && elapsed_ms as int == spec_clamp(e + delta_ms),
                Phase::Contract(c) => action.scale matches FrameScale::Contracting { elapsed_ms }
                    && elapsed_ms as int == spec_clamp(c + delta_ms),
            },
            match action.boundary {
                BoundaryAction::Keep => !spec_expand_completes(old(self)@, delta_ms as int),
                BoundaryAction::Capture(ids) => {
                    &&& spec_expand_completes(old(self)@, delta_ms as int)
                    &&& !old(self)@.is_open
                    &&& ids@.no_duplicates()
                    &&& ids@.to_set() == old(self)@.candidates
                },
                BoundaryAction::Release(ids) => {
                    &&& spec_expand_completes(old(self)@, delta_ms as int)
                    &&& old(self)@.is_open
                    &&& ids@.no_duplicates()
                    &&& ids@.to_set() == old(self)@.captured
                },
            },
    {
        let targets = scale_targets(&self.animation_state, self.is_open);
        match self.animation_state {
            AnimationState::Idle => UpdateAction {
                scale: FrameScale::Inactive,
                targets,
                boundary: BoundaryAction::Keep,
            },
            AnimationState::Expand(a0) => {
                let mut a = a0;
                a.advance(delta_ms);
                let e = a.elapsed_ms();
                if a.is_finished() {
                    let boundary = if self.is_open {
                        BoundaryAction::Release(self.registry.release_all())
                    } else {
                        BoundaryAction::Capture(self.registry.promote_all())
                    };
                    self.animation_state = AnimationState::Contract(Animator::begin());
                    proof {
                        assert(self@ =~= spec_step(old(self)@, delta_ms as int));
                    }
                    UpdateAction {
                        scale: FrameScale::Expanding { elapsed_ms: e },
                        targets,
                        boundary,
                    }
                } else {
                    self.animation_state = AnimationState::Expand(a);
                    proof {
                        assert(self@ =~= spec_step(old(self)@, delta_ms as int));
                    }
                    UpdateAction {
                        scale: FrameScale::Expanding { elapsed_ms: e },
                        targets,
                        boundary: BoundaryAction::Keep,
                    }
                }
            },
            AnimationState::Contract(a0) => {
                let mut a = a0;
                a.advance(delta_ms);
                let e = a.elapsed_ms();
                if a.is_finished() {
                    self.animation_state = AnimationState::Idle;
                } else {
                    self.animation_state = AnimationState::Contract(a);
                }
                proof {
                    assert(self@ =~= spec_step(old(self)@, delta_ms as int));
                }
                UpdateAction {
                    scale: FrameScale::Contracting { elapsed_ms: e },
                    targets,
                    boundary: BoundaryAction::Keep,
                }
            },
        }
    }

    /// Host notification: an object moved into the volume.
    pub fn enter(&mut self, id: u64)
        requires
            old(self).wf(),
        ensures
            final(self).wf(),
            final(self)@.is_open == old(self)@.is_open,
            final(self)@.phase == old(self)@.phase,
            final(self)@.captured == old(self)@.captured,
            final(self)@.candidates == (if old(self)@.captured.contains(id) {
                old(self)@.candidates
            } else {
                old(self)@.candidates.insert(id)
            }),
    {
        self.registry.enter(id);
    }

    /// Host notification: an object moved out of the volume. A stale
    /// identifier is a no-op.
    pub fn leave(&mut self, id: u64)
        requires
            old(self).wf(),
        ensures
            final(self).wf(),
            final(self)@.is_open == old(self)@.is_open,
            final(self)@.phase == old(self)@.phase,
            final(self)@.captured == old(self)@.captured,
            final(self)@.candidates == old(self)@.candidates.remove(id),
            !old(self)@.candidates.contains(id)
                ==> final(self)@.candidates == old(self)@.candidates,
    {
        self.registry.leave(id);
    }

    /// Host notification: the zone took ownership of an object, possibly
    /// out of band. Idempotent.
    pub fn capture(&mut self, id: u64)
        requires
            old(self).wf(),
        ensures
            final(self).wf(),
            final(self)@.is_open == old(self)@.is_open,
            final(self)@.phase == old(self)@.phase,
            final(self)@.candidates == old(self)@.candidates.remove(id),
            final(self)@.captured == old(self)@.captured.insert(id),
    {
        self.registry.capture(id);
    }

    /// Host notification: the zone lost ownership of an object. A stale
    /// identifier is a no-op.
    pub fn release(&mut self, id: u64)
        requires
            old(self).wf(),
        ensures
            final(self).wf(),
            final(self)@.is_open == old(self)@.is_open,
            final(self)@.phase == old(self)@.phase,
            final(self)@.candidates == old(self)@.candidates,
            final(self)@.captured == old(self)@.captured.remove(id),
            !old(self)@.captured.contains(id)
                ==> final(self)@.captured == old(self)@.captured,
    {
        self.registry.release(id);
    }

    pub fn is_candidate(&self, id: u64) -> (b: bool)
        ensures
            b == self@.candidates.contains(id),
    {
        self.registry.is_candidate(id)
    }

    pub fn is_captured(&self, id: u64) -> (b: bool)
        ensures
            b == self@.captured.contains(id),
    {
        self.registry.is_captured(id)
    }

    pub fn candidate_count(&self) -> (n: usize)
        requires
            self.wf(),
        ensures
            n == self@.candidates.len(),
    {
        self.registry.candidate_count()
    }

    pub fn captured_count(&self) -> (n: usize)
        requires
            self.wf(),
        ensures
            n == self@.captured.len(),
    {
        self.registry.captured_count()
    }
}

/// The logical state right after an `Expand` phase completes: the one
/// membership mutation of a cycle, with a fresh `Contract` phase.
pub open spec fn spec_boundary(m: ZoneModel) -> ZoneModel {
    if m.is_open {
        ZoneModel {
            phase: Phase::Contract(0),
            candidates: m.candidates.union(m.captured),
            captured: Set::<u64>::empty(),
            ..m
        }
    } else {
        ZoneModel {
            phase: Phase::Contract(0),
            candidates: Set::<u64>::empty(),
            captured: m.captured.union(m.candidates),
            ..m
        }
    }
}

/// The combined effect of a series of `update` calls.
pub open spec fn spec_run(m: ZoneModel, deltas: Seq<int>) -> ZoneModel
    decreases deltas.len(),
{
    if deltas.len() == 0 {
        m
    } else {
        spec_run(spec_step(m, deltas[0]), deltas.drop_first())
    }
}

pub open spec fn spec_sum(deltas: Seq<int>) -> int
    decreases deltas.len(),
{
    if deltas.len() == 0 {
        0
    } else {
        deltas[0] + spec_sum(deltas.drop_first())
    }
}

pub open spec fn all_nonneg(deltas: Seq<int>) -> bool {
    forall|i: int| 0 <= i < deltas.len() ==> deltas[i] >= 0
}

/// A phase that will not mutate membership: idle, or a contraction that has
/// not yet exhausted its duration.
pub open spec fn settled_phase(p: Phase) -> bool {
    match p {
        Phase::Idle => true,
        Phase::Contract(c) => 0 <= c < DURATION_MS as int,
        Phase::Expand(_) => false,
    }
}

proof fn lemma_nonneg_drop_first(deltas: Seq<int>)
    requires
        all_nonneg(deltas),
        deltas.len() > 0,
    ensures
        all_nonneg(deltas.drop_first()),
{
    assert forall|i: int| 0 <= i < deltas.drop_first().len()
        implies deltas.drop_first()[i] >= 0 by {
        assert(deltas.drop_first()[i] == deltas[i + 1]);
    }
}

/// One step keeps the state well formed.
pub proof fn lemma_step_wf(m: ZoneModel, delta: int)
    requires
        model_wf(m),
        delta >= 0,
    ensures
        model_wf(spec_step(m, delta)),
{
}

/// `update` never changes `open`, however many calls are made: only
/// `toggle` flips it.
pub proof fn lemma_update_never_flips_open(m: ZoneModel, deltas: Seq<int>)
    ensures
        spec_run(m, deltas).is_open == m.is_open,
    decreases deltas.len(),
{
    if deltas.len() > 0 {
        lemma_update_never_flips_open(spec_step(m, deltas[0]), deltas.drop_first());
    }
}

/// An idle zone stays exactly as it is, whatever updates it receives.
pub proof fn lemma_idle_stays(m: ZoneModel, deltas: Seq<int>)
    requires
        m.phase is Idle,
    ensures
        spec_run(m, deltas) == m,
    decreases deltas.len(),
{
    if deltas.len() > 0 {
        lemma_idle_stays(spec_step(m, deltas[0]), deltas.drop_first());
    }
}

/// A run of updates splits at any point.
pub proof fn lemma_run_append(m: ZoneModel, a: Seq<int>, b: Seq<int>)
    ensures
        spec_run(m, a + b) == spec_run(spec_run(m, a), b),
    decreases a.len(),
{
    if a.len() == 0 {
        assert(a + b =~= b);
    } else {
        assert((a + b)[0] == a[0]);
        assert((a + b).drop_first() =~= a.drop_first() + b);
        lemma_run_append(spec_step(m, a[0]), a.drop_first(), b);
    }
}

/// Once no expansion is in flight, membership and `open` are frozen, and
/// no update starts an expansion by itself.
pub proof fn lemma_settled_run(m: ZoneModel, deltas: Seq<int>)
    requires
        all_nonneg(deltas),
        settled_phase(m.phase),
    ensures
        settled_phase(spec_run(m, deltas).phase),
        spec_run(m, deltas).candidates == m.candidates,
        spec_run(m, deltas).captured == m.captured,
        spec_run(m, deltas).is_open == m.is_open,
    decreases deltas.len(),
{
    if deltas.len() > 0 {
        lemma_nonneg_drop_first(deltas);
        lemma_settled_run(spec_step(m, deltas[0]), deltas.drop_first());
    }
}

/// A contraction given enough cumulative time always reaches `Idle`, no
/// matter how the time is fragmented across calls.
pub proof fn lemma_contract_completes(m: ZoneModel, c: int, deltas: Seq<int>)
    requires
        m.phase == Phase::Contract(c),
        0 <= c < DURATION_MS as int,
        all_nonneg(deltas),
        c + spec_sum(deltas) >= DURATION_MS as int,
    ensures
        spec_run(m, deltas).phase is Idle,
        spec_run(m, deltas).candidates == m.candidates,
        spec_run(m, deltas).captured == m.captured,
        spec_run(m, deltas).is_open == m.is_open,
    decreases deltas.len(),
{
    if deltas.len() == 0 {
        assert(false);
    } else {
        lemma_nonneg_drop_first(deltas);
        let m2 = spec_step(m, deltas[0]);
        let c2 = spec_clamp(c + deltas[0]);
        if c2 == DURATION_MS as int {
            lemma_idle_stays(m2, deltas.drop_first());
        } else {
            lemma_contract_completes(m2, c2, deltas.drop_first());
        }
    }
}

/// An expansion given enough cumulative time always completes, performing
/// its one membership mutation; the resulting membership is that of
/// [`spec_boundary`] regardless of how the time was fragmented.
pub proof fn lemma_expand_completes(m: ZoneModel, e: int, deltas: Seq<int>)
    requires
        m.phase == Phase::Expand(e),
        0 <= e < DURATION_MS as int,
        all_nonneg(deltas),
        e + spec_sum(deltas) >= DURATION_MS as int,
    ensures
        settled_phase(spec_run(m, deltas).phase),
        spec_run(m, deltas).candidates == spec_boundary(m).candidates,
        spec_run(m, deltas).captured == spec_boundary(m).captured,
        spec_run(m, deltas).is_open == m.is_open,
    decreases deltas.len(),
{
    if deltas.len() == 0 {
        assert(false);
    } else {
        lemma_nonneg_drop_first(deltas);
        let m2 = spec_step(m, deltas[0]);
        let e2 = spec_clamp(e + deltas[0]);
        if e2 == DURATION_MS as int {
            assert(m2 =~= spec_boundary(m));
            lemma_settled_run(m2, deltas.drop_first());
        } else {
            lemma_expand_completes(m2, e2, deltas.drop_first());
            assert(spec_boundary(m2) =~= spec_boundary(m));
        }
    }
}

/// The full cycle started by one uninterrupted `toggle`: once each phase
/// has received its duration's worth of updates, the zone is idle again,
/// `open` is as the toggle left it, and membership has mutated exactly
/// once, identically however the elapsed time was split across calls.
pub proof fn lemma_toggle_cycle(m: ZoneModel, a: Seq<int>, b: Seq<int>)
    requires
        m.phase == Phase::Expand(0),
        all_nonneg(a),
        all_nonneg(b),
        spec_sum(a) >= DURATION_MS as int,
        spec_sum(b) >= DURATION_MS as int,
    ensures
        spec_run(m, a + b).phase is Idle,
        spec_run(m, a + b).is_open == m.is_open,
        spec_run(m, a + b).candidates == spec_boundary(m).candidates,
        spec_run(m, a + b).captured == spec_boundary(m).captured,
{
    lemma_run_append(m, a, b);
    lemma_expand_completes(m, 0, a);
    let ma = spec_run(m, a);
    match ma.phase {
        Phase::Idle => {
            lemma_idle_stays(ma, b);
        },
        Phase::Contract(c) => {
            lemma_contract_completes(ma, c, b);
        },
        Phase::Expand(_) => {
            assert(false);
        },
    }
}

/// The gating table made executable: which handles receive the scalar,
/// given the active phase and the target state.
pub fn scale_targets(state: &AnimationState, is_open: bool) -> (t: ScaleTargets)
    ensures
        t == spec_scale_targets(phase_of(*state), is_open),
{
    match state {
        AnimationState::Idle => ScaleTargets { field: false, zone: false },
        AnimationState::Expand(_) => ScaleTargets { field: true, zone: is_open },
        AnimationState::Contract(_) => ScaleTargets { field: true, zone: !is_open },
    }
}

} // verus!
