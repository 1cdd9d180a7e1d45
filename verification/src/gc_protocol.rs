//! The protocol of the quiescence barrier, for any number of consumers and
//! any order in which the threads take their steps.
//!
//! [`BarrierModel`] holds the flag and the counter of
//! [`crate::gc_guard::GcGuard`] and, for the proof only, where every thread
//! stands. The steps are the single atomic operations of the barrier:
//!
//! | step                 | in `GcGuard`                                   |
//! |----------------------|------------------------------------------------|
//! | `RequestPause`       | `lock` stores `true` into the flag             |
//! | `ObserveDrained`     | `wait_for_no_consumers` reads a counter of zero |
//! | `FinishPause`        | `unlock` stores `false` into the flag          |
//! | `Admit(c)`           | consumer `c` reads the flag and finds it down  |
//! | `Register(c)`        | `add_consumer` adds one to the counter         |
//! | `Leave(c)`           | `remove_consumer` takes one from the counter   |
//!
//! The pauser's callback runs between `ObserveDrained` and `FinishPause`; a
//! consumer's critical section runs between `Register` and `Leave`.

use vstd::prelude::*;

verus! {

/// Where the pauser stands.
pub enum PauserPhase {
    /// No pause is under way.
    Idle,
    /// The flag is up and the pauser waits for the counter to reach zero.
    Draining,
    /// The pauser has seen a counter of zero and runs its callback.
    Running,
}

/// One atomic step of one thread.
pub enum BarrierStep {
    RequestPause,
    ObserveDrained,
    FinishPause,
    Admit(nat),
    Register(nat),
    Leave(nat),
}

/// The barrier and the threads around it.
pub struct BarrierModel {
    /// The flag.
    pub locked: bool,
    /// The counter of registered consumers.
    pub count: nat,
    /// Where the pauser stands.
    pub pauser: PauserPhase,
    /// The consumers that found the flag down and have not registered yet.
    pub admitted: Set<nat>,
    /// The consumers inside their critical section.
    pub inside: Set<nat>,
    /// The consumers whose critical section began before the pause under
    /// way was requested and has not ended yet.
    pub early: Set<nat>,
}

impl BarrierModel {
    /// The barrier as `GcGuard::allocate` and `GcGuard::init` leave it.
    pub open spec fn initial() -> BarrierModel {
        BarrierModel {
            locked: false,
            count: 0,
            pauser: PauserPhase::Idle,
            admitted: Set::empty(),
            inside: Set::empty(),
            early: Set::empty(),
        }
    }

    /// Whether a thread can take `step` in this state.
    pub open spec fn enabled(self, step: BarrierStep) -> bool {
        match step {
            BarrierStep::RequestPause => self.pauser is Idle,
            BarrierStep::ObserveDrained => self.pauser is Draining && self.count == 0,
            BarrierStep::FinishPause => self.pauser is Running,
            BarrierStep::Admit(c) => !self.locked && !self.admitted.contains(c)
                && !self.inside.contains(c),
            BarrierStep::Register(c) => self.admitted.contains(c),
            BarrierStep::Leave(c) => self.inside.contains(c),
        }
    }

    /// The state after `step`.
    pub open spec fn next(self, step: BarrierStep) -> BarrierModel {
        match step {
            BarrierStep::RequestPause => BarrierModel {
                locked: true,
                pauser: PauserPhase::Draining,
                early: self.inside,
                ..self
            },
            BarrierStep::ObserveDrained => BarrierModel { pauser: PauserPhase::Running, ..self },
            BarrierStep::FinishPause => BarrierModel {
                locked: false,
                pauser: PauserPhase::Idle,
                early: Set::empty(),
                ..self
            },
            BarrierStep::Admit(c) => BarrierModel { admitted: self.admitted.insert(c), ..self },
            BarrierStep::Register(c) => BarrierModel {
                count: self.count + 1,
                admitted: self.admitted.remove(c),
                inside: self.inside.insert(c),
                ..self
            },
            BarrierStep::Leave(c) => BarrierModel {
                count: (self.count - 1) as nat,
                inside: self.inside.remove(c),
                early: self.early.remove(c),
                ..self
            },
        }
    }

    /// Whether the steps can be taken one after the other from this state.
    pub open spec fn feasible(self, steps: Seq<BarrierStep>) -> bool
        decreases steps.len(),
    {
        steps.len() == 0 || (self.feasible(steps.drop_last()) && self.run(
            steps.drop_last(),
        ).enabled(steps.last()))
    }

    /// The state after the steps.
    pub open spec fn run(self, steps: Seq<BarrierStep>) -> BarrierModel
        decreases steps.len(),
    {
        if steps.len() == 0 {
            self
        } else {
            self.run(steps.drop_last()).next(steps.last())
        }
    }

    /// What holds in every state that the barrier can reach: the counter
    /// counts the consumers inside, and while the callback runs none of the
    /// consumers that were inside when the pause was requested is inside
    /// still.
    pub open spec fn inv(self) -> bool {
        &&& self.inside.finite()
        &&& self.count == self.inside.len()
        &&& self.early.subset_of(self.inside)
        &&& self.locked == !(self.pauser is Idle)
        &&& self.pauser is Running ==> self.early =~= Set::<nat>::empty()
        &&& self.admitted.disjoint(self.inside)
    }
}

/// The first state satisfies the invariant.
pub proof fn lemma_initial_inv()
    ensures
        BarrierModel::initial().inv(),
{
}

/// Every step keeps the invariant.
pub proof fn lemma_step_keeps_inv(state: BarrierModel, step: BarrierStep)
    requires
        state.inv(),
        state.enabled(step),
    ensures
        state.next(step).inv(),
{
    let after = state.next(step);
    match step {
        BarrierStep::ObserveDrained => {
            assert(state.inside =~= Set::<nat>::empty()) by {
                state.inside.lemma_len0_is_empty();
            }
            assert(after.early =~= Set::<nat>::empty());
        },
        _ => {},
    }
}

/// Every run from the first state ends in a state that satisfies the
/// invariant.
pub proof fn lemma_run_keeps_inv(steps: Seq<BarrierStep>)
    requires
        BarrierModel::initial().feasible(steps),
    ensures
        BarrierModel::initial().run(steps).inv(),
    decreases steps.len(),
{
    if steps.len() == 0 {
        lemma_initial_inv();
    } else {
        lemma_run_keeps_inv(steps.drop_last());
        lemma_step_keeps_inv(BarrierModel::initial().run(steps.drop_last()), steps.last());
    }
}

/// Pause: in whatever order the pauser and any number of consumers take
/// their steps, the callback never runs while a consumer is inside a
/// critical section that began before the pause was requested. The counter
/// of the barrier is then exactly the number of consumers inside, all of
/// which registered after the request.
pub proof fn law_pause_excludes_earlier_consumers(steps: Seq<BarrierStep>, consumer: nat)
    requires
        BarrierModel::initial().feasible(steps),
        BarrierModel::initial().run(steps).pauser is Running,
    ensures
        !BarrierModel::initial().run(steps).early.contains(consumer),
        BarrierModel::initial().run(steps).count == BarrierModel::initial().run(
            steps,
        ).inside.len(),
{
    lemma_run_keeps_inv(steps);
}

/// The gap between a consumer's look at the flag and its registration: a
/// consumer that found the flag down before the pause was requested can
/// register after the pauser has seen a counter of zero, and is then inside
/// its critical section while the callback runs.
pub proof fn law_late_registration_overlaps(consumer: nat)
    ensures
        BarrierModel::initial().feasible(
            seq![
                BarrierStep::Admit(consumer),
                BarrierStep::RequestPause,
                BarrierStep::ObserveDrained,
                BarrierStep::Register(consumer),
            ],
        ),
        BarrierModel::initial().run(
            seq![
                BarrierStep::Admit(consumer),
                BarrierStep::RequestPause,
                BarrierStep::ObserveDrained,
                BarrierStep::Register(consumer),
            ],
        ).pauser is Running,
        BarrierModel::initial().run(
            seq![
                BarrierStep::Admit(consumer),
                BarrierStep::RequestPause,
                BarrierStep::ObserveDrained,
                BarrierStep::Register(consumer),
            ],
        ).inside.contains(consumer),
{
    let first = BarrierModel::initial();
    let steps = seq![
        BarrierStep::Admit(consumer),
        BarrierStep::RequestPause,
        BarrierStep::ObserveDrained,
        BarrierStep::Register(consumer),
    ];
    let drained = steps.drop_last();
    let requested = drained.drop_last();
    let admitted = requested.drop_last();
    let none = admitted.drop_last();
    assert(none.len() == 0);
    assert(first.run(none) == first);
    assert(first.feasible(none));
    assert(admitted.last() == BarrierStep::Admit(consumer));
    assert(first.run(admitted) == first.next(BarrierStep::Admit(consumer)));
    assert(first.feasible(admitted));
    assert(requested.last() == BarrierStep::RequestPause);
    assert(first.run(requested) == first.run(admitted).next(BarrierStep::RequestPause));
    assert(first.feasible(requested));
    assert(drained.last() == BarrierStep::ObserveDrained);
    assert(first.run(drained) == first.run(requested).next(BarrierStep::ObserveDrained));
    assert(first.feasible(drained));
    assert(steps.last() == BarrierStep::Register(consumer));
    assert(first.run(steps) == first.run(drained).next(BarrierStep::Register(consumer)));
    assert(first.feasible(steps));
}

} // verus!
