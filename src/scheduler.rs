use vstd::prelude::*;
use crate::action::{ActionQueue, StepperAction, StepperEvent, StepperId};
use crate::registry::StepperRegistry;
use crate::stepper::{add_one, remove_one, step_all, RegistryView, Stepper, StepperError};

verus! {

/// Ids of the `Remove` actions, in queue order.
pub open spec fn removes_of<S>(acts: Seq<StepperAction<S>>) -> Seq<Seq<char>>
    decreases acts.len(),
{
    if acts.len() == 0 {
        Seq::empty()
    } else {
        let prev = removes_of(acts.drop_last());
        match acts.last() {
            StepperAction::Remove(id) => prev.push(id@),
            _ => prev,
        }
    }
}

/// Ids of the `Add` actions, in queue order.
pub open spec fn adds_of<S>(acts: Seq<StepperAction<S>>) -> Seq<Seq<char>>
    decreases acts.len(),
{
    if acts.len() == 0 {
        Seq::empty()
    } else {
        let prev = adds_of(acts.drop_last());
        match acts.last() {
            StepperAction::Add(id, _) => prev.push(id@),
            _ => prev,
        }
    }
}

/// The instances of the `Add` actions, in queue order.
pub open spec fn add_steppers_of<S>(acts: Seq<StepperAction<S>>) -> Seq<S>
    decreases acts.len(),
{
    if acts.len() == 0 {
        Seq::empty()
    } else {
        let prev = add_steppers_of(acts.drop_last());
        match acts.last() {
            StepperAction::Add(_, s) => prev.push(s),
            _ => prev,
        }
    }
}

/// The `Event` actions, in queue order.
pub open spec fn events_of<S>(acts: Seq<StepperAction<S>>) -> Seq<StepperEvent>
    decreases acts.len(),
{
    if acts.len() == 0 {
        Seq::empty()
    } else {
        let prev = events_of(acts.drop_last());
        match acts.last() {
            StepperAction::Event(e) => prev.push(e),
            _ => prev,
        }
    }
}

/// Applying each removal in order.
pub open spec fn remove_phase(m: RegistryView, ids: Seq<Seq<char>>) -> RegistryView
    decreases ids.len(),
{
    if ids.len() == 0 {
        m
    } else {
        remove_one(remove_phase(m, ids.drop_last()), ids.last())
    }
}

/// Applying each addition in order, the `k`-th initialize returning `oks[k]`.
pub open spec fn add_phase(m: RegistryView, ids: Seq<Seq<char>>, oks: Seq<bool>) -> RegistryView
    decreases ids.len(),
{
    if ids.len() == 0 || oks.len() == 0 {
        m
    } else {
        add_one(add_phase(m, ids.drop_last(), oks.drop_last()), ids.last(), oks.last())
    }
}

/// One frame over `acts`: every removal, then every addition (the `k`-th
/// initialize returning `oks[k]`), then one step of each registered stepper.
pub open spec fn frame_model<S>(m: RegistryView, acts: Seq<StepperAction<S>>, oks: Seq<bool>) -> RegistryView {
    step_all(add_phase(remove_phase(m, removes_of(acts)), adds_of(acts), oks))
}

pub open spec fn oks_of(results: Seq<Result<(), StepperError>>) -> Seq<bool> {
    results.map_values(|r: Result<(), StepperError>| r is Ok)
}

/// Each instance of `after` is what `step` with `events` made of the one at
/// the same position in `before`.
pub open spec fn all_stepped<S: Stepper>(before: Seq<S>, events: Seq<StepperEvent>, after: Seq<S>) -> bool {
    &&& before.len() == after.len()
    &&& forall|i: int| 0 <= i < after.len() ==> S::stepped(before[i], events, #[trigger] after[i])
}

/// A frame's actions, split by kind, each part in queue order.
pub struct FramePlan<S> {
    pub removes: Vec<StepperId>,
    pub adds: Vec<(StepperId, S)>,
    pub events: Vec<StepperEvent>,
}

/// What became of each `Remove` and each `Add` of a frame, in the order applied.
pub struct FrameReport {
    pub removed: Vec<Result<(), StepperError>>,
    pub added: Vec<Result<(), StepperError>>,
}

/// Splits a frame's actions into removals, additions and events.
pub fn partition<S>(actions: Vec<StepperAction<S>>) -> (r: FramePlan<S>)
    ensures
        r.removes@.map_values(|s: String| s@) == removes_of(actions@),
        r.adds@.map_values(|a: (String, S)| a.0@) == adds_of(actions@),
        r.adds@.map_values(|a: (String, S)| a.1) == add_steppers_of(actions@),
        r.events@ == events_of(actions@),
{
    let ghost all = actions@;
    let mut rest = actions;
    let mut removes: Vec<StepperId> = Vec::new();
    let mut adds: Vec<(StepperId, S)> = Vec::new();
    let mut events: Vec<StepperEvent> = Vec::new();
    while rest.len() > 0
        invariant
            rest@ == all.skip(all.len() - rest@.len()),
            rest@.len() <= all.len(),
            removes@.map_values(|s: String| s@) == removes_of(all.take(all.len() - rest@.len())),
            adds@.map_values(|a: (String, S)| a.0@) == adds_of(all.take(all.len() - rest@.len())),
            adds@.map_values(|a: (String, S)| a.1) == add_steppers_of(
                all.take(all.len() - rest@.len()),
            ),
            events@ == events_of(all.take(all.len() - rest@.len())),
        decreases rest.len(),
    {
        let ghost k = all.len() - rest@.len();
        let a = rest.remove(0);
        proof {
            assert(a == all[k]);
            assert(rest@ =~= all.skip(k + 1));
            assert(all.take(k + 1).drop_last() =~= all.take(k));
            assert(all.take(k + 1).last() == all[k]);
        }
        match a {
            StepperAction::Remove(id) => {
                removes.push(id);
                proof {
                    assert(removes@.map_values(|s: String| s@) =~= removes_of(all.take(k + 1)));
                    assert(adds@.map_values(|a: (String, S)| a.0@) =~= adds_of(all.take(k + 1)));
                    assert(adds@.map_values(|a: (String, S)| a.1) =~= add_steppers_of(all.take(k + 1)));
                }
            },
            StepperAction::Add(id, s) => {
                adds.push((id, s));
                proof {
                    assert(adds@.map_values(|a: (String, S)| a.0@) =~= adds_of(all.take(k + 1)));
                    assert(adds@.map_values(|a: (String, S)| a.1) =~= add_steppers_of(all.take(k + 1)));
                    assert(removes@.map_values(|s: String| s@) =~= removes_of(all.take(k + 1)));
                }
            },
            StepperAction::Event(e) => {
                events.push(e);
                proof {
                    assert(removes@.map_values(|s: String| s@) =~= removes_of(all.take(k + 1)));
                    assert(adds@.map_values(|a: (String, S)| a.0@) =~= adds_of(all.take(k + 1)));
                    assert(adds@.map_values(|a: (String, S)| a.1) =~= add_steppers_of(all.take(k + 1)));
                }
            },
        }
    }
    proof {
        assert(all.take(all.len() as int) =~= all);
    }
    FramePlan { removes, adds, events }
}

/// Drives the frame loop: drains the queue, applies removals before additions,
/// then steps every active stepper with the frame's events.
pub struct FrameScheduler<S> {
    queue: ActionQueue<S>,
    deferred: Vec<StepperAction<S>>,
    registry: StepperRegistry<S>,
}

impl<S: Stepper> FrameScheduler<S> {
    pub closed spec fn wf(&self) -> bool {
        self.registry.wf()
    }

    /// The registry's abstract state.
    pub closed spec fn registry_view(&self) -> RegistryView {
        self.registry@
    }

    /// The registered instances, in registration order.
    pub closed spec fn instances(&self) -> Seq<S> {
        self.registry.instances()
    }

    /// The actions waiting for the next frame.
    pub closed spec fn pending(&self) -> Seq<StepperAction<S>> {
        self.queue@
    }

    /// The actions held back until the next frame has run.
    pub closed spec fn deferred(&self) -> Seq<StepperAction<S>> {
        self.deferred@
    }

    pub fn new() -> (r: Self)
        ensures
            r.wf(),
            r.pending() == Seq::<StepperAction<S>>::empty(),
            r.deferred() == Seq::<StepperAction<S>>::empty(),
            r.registry_view().ids == Seq::<Seq<char>>::empty(),
            r.registry_view().calls.len() == 0,
    {
        FrameScheduler { queue: ActionQueue::new(), deferred: Vec::new(), registry: StepperRegistry::new() }
    }

    /// Enqueues an action for the next frame.
    pub fn push_action(&mut self, action: StepperAction<S>)
        ensures
            final(self).wf() == old(self).wf(),
            final(self).pending() == old(self).pending().push(action),
            final(self).deferred() == old(self).deferred(),
            final(self).registry_view() == old(self).registry_view(),
    {
        self.queue.push(action);
    }

    /// Holds `action` back until the next frame has run; it is then queued
    /// for the frame after.
    pub fn push_after_next_frame(&mut self, action: StepperAction<S>)
        ensures
            final(self).wf() == old(self).wf(),
            final(self).pending() == old(self).pending(),
            final(self).deferred() == old(self).deferred().push(action),
            final(self).registry_view() == old(self).registry_view(),
    {
        self.deferred.push(action);
    }

    /// Replaces the stepper `current` by `next` under `next_id` across two
    /// frames: the removal takes full effect in the next frame, and the
    /// replacement is only added in the frame after, so the old instance's
    /// shutdown has completed before the new one initializes.
    pub fn swap_stepper(&mut self, current: StepperId, next_id: StepperId, next: S)
        ensures
            final(self).wf() == old(self).wf(),
            final(self).pending() == old(self).pending().push(StepperAction::Remove(current)),
            final(self).deferred() == old(self).deferred().push(StepperAction::Add(next_id, next)),
            final(self).registry_view() == old(self).registry_view(),
    {
        self.queue.push(StepperAction::Remove(current));
        self.deferred.push(StepperAction::Add(next_id, next));
    }

    /// The registry, for reading.
    pub fn registry(&self) -> (r: &StepperRegistry<S>)
        ensures
            r@ == self.registry_view(),
            r.wf() == self.wf(),
    {
        &self.registry
    }

    /// Hands back every stepper shut down so far and not yet taken, oldest first.
    pub fn take_retired(&mut self) -> (r: Vec<S>)
        requires
            old(self).wf(),
        ensures
            final(self).wf(),
            final(self).pending() == old(self).pending(),
            final(self).deferred() == old(self).deferred(),
            final(self).registry_view() == old(self).registry_view(),
    {
        self.registry.take_retired()
    }

    /// Moves the held-back actions, in order, to the end of the queue.
    fn requeue_deferred(&mut self)
        ensures
            final(self).pending() == old(self).pending() + old(self).deferred(),
            final(self).deferred() == Seq::<StepperAction<S>>::empty(),
            final(self).registry == old(self).registry,
    {
        let mut held: Vec<StepperAction<S>> = Vec::new();
        std::mem::swap(&mut held, &mut self.deferred);
        let ghost all = held@;
        while held.len() > 0
            invariant
                held@.len() <= all.len(),
                held@ == all.skip(all.len() - held@.len()),
                self.queue@ == old(self).queue@ + all.take(all.len() - held@.len()),
                self.deferred@ == Seq::<StepperAction<S>>::empty(),
                self.registry == old(self).registry,
            decreases held.len(),
        {
            let ghost k = all.len() - held@.len();
            let a = held.remove(0);
            self.queue.push(a);
            proof {
                assert(a == all[k]);
                assert(all.take(k + 1) =~= all.take(k).push(a));
                assert(held@ =~= all.skip(k + 1));
                assert(self.queue@ =~= old(self).queue@ + all.take(k + 1));
            }
        }
        proof {
            assert(all.take(all.len() as int) =~= all);
        }
    }

    fn apply_removes(&mut self, ids: Vec<StepperId>) -> (r: Vec<Result<(), StepperError>>)
        requires
            old(self).wf(),
        ensures
            final(self).wf(),
            final(self).pending() == old(self).pending(),
            final(self).deferred() == old(self).deferred(),
            final(self).registry_view() == remove_phase(
                old(self).registry_view(),
                ids@.map_values(|s: String| s@),
            ),
            forall|k: int|
                0 <= k < r@.len() ==> #[trigger] r@[k] is Err ==> r@[k] == Err::<(), StepperError>(
                    StepperError::UnknownId,
                ),
            r@.len() == ids@.len(),
            forall|k: int|
                0 <= k < r@.len() ==> (#[trigger] r@[k] is Ok <==> remove_phase(
                    old(self).registry_view(),
                    ids@.map_values(|s: String| s@).take(k),
                ).ids.contains(ids@[k]@)),
    {
        let ghost names = ids@.map_values(|s: String| s@);
        let ghost m0 = self.registry@;
        let mut out: Vec<Result<(), StepperError>> = Vec::new();
        let mut i: usize = 0;
        while i < ids.len()
            invariant
                self.wf(),
                self.queue@ == old(self).queue@,
                self.deferred@ == old(self).deferred@,
                m0 == old(self).registry_view(),
                names == ids@.map_values(|s: String| s@),
                i <= ids@.len(),
                forall|k: int|
                    0 <= k < out@.len() ==> #[trigger] out@[k] is Err ==> out@[k] == Err::<(), StepperError>(
                        StepperError::UnknownId,
                    ),
                out@.len() == i,
                self.registry@ == remove_phase(m0, names.take(i as int)),
                forall|k: int|
                    0 <= k < i ==> (#[trigger] out@[k] is Ok <==> remove_phase(
                        m0,
                        names.take(k),
                    ).ids.contains(ids@[k]@)),
            decreases ids.len() - i,
        {
            let res = self.registry.apply_remove(&ids[i]);
            out.push(res);
            proof {
                assert(names.take(i + 1).drop_last() =~= names.take(i as int));
            }
            i = i + 1;
        }
        proof {
            assert(names.take(i as int) =~= names);
        }
        out
    }

    #[verifier::rlimit(100)]
    fn apply_adds(&mut self, adds: Vec<(StepperId, S)>) -> (r: Vec<Result<(), StepperError>>)
        requires
            old(self).wf(),
        ensures
            final(self).wf(),
            final(self).pending() == old(self).pending(),
            final(self).deferred() == old(self).deferred(),
            final(self).registry_view() == add_phase(
                old(self).registry_view(),
                adds@.map_values(|a: (String, S)| a.0@),
                oks_of(r@),
            ),
            forall|k: int|
                0 <= k < r@.len() ==> #[trigger] r@[k] is Err ==> r@[k] == Err::<(), StepperError>(
                    StepperError::DuplicateId,
                ) || r@[k] == Err::<(), StepperError>(StepperError::InitializationFailed),
            r@.len() == adds@.len(),
            forall|k: int|
                0 <= k < r@.len() && r@[k] != Err::<(), StepperError>(StepperError::DuplicateId) ==> (
                #[trigger] r@[k] is Ok <==> adds@[k].1.init_ok(adds@[k].0@)),
            forall|k: int|
                0 <= k < r@.len() ==> (#[trigger] r@[k] == Err::<(), StepperError>(
                    StepperError::DuplicateId,
                ) <==> add_phase(
                    old(self).registry_view(),
                    adds@.map_values(|a: (String, S)| a.0@).take(k),
                    oks_of(r@).take(k),
                ).ids.contains(adds@[k].0@)),
    {
        let ghost names = adds@.map_values(|a: (String, S)| a.0@);
        let ghost m0 = self.registry@;
        let ghost n = adds@.len();
        let ghost adds0 = adds@;
        let mut rest = adds;
        let mut out: Vec<Result<(), StepperError>> = Vec::new();
        while rest.len() > 0
            invariant
                self.wf(),
                self.queue@ == old(self).queue@,
                self.deferred@ == old(self).deferred@,
                m0 == old(self).registry_view(),
                n == names.len(),
                rest@.len() <= n,
                forall|k: int|
                    0 <= k < out@.len() ==> #[trigger] out@[k] is Err ==> out@[k] == Err::<(), StepperError>(
                        StepperError::DuplicateId,
                    ) || out@[k] == Err::<(), StepperError>(StepperError::InitializationFailed),
                out@.len() == n - rest@.len(),
                adds0 == adds@,
                forall|j: int| 0 <= j < rest@.len() ==> #[trigger] rest@[j].0@ == names[n - rest@.len() + j],
                forall|j: int| 0 <= j < rest@.len() ==> #[trigger] rest@[j] == adds0[n - rest@.len() + j],
                forall|k: int|
                    0 <= k < out@.len() && out@[k] != Err::<(), StepperError>(StepperError::DuplicateId)
                        ==> (#[trigger] out@[k] is Ok <==> adds0[k].1.init_ok(adds0[k].0@)),
                self.registry@ == add_phase(m0, names.take(out@.len() as int), oks_of(out@)),
                forall|k: int|
                    0 <= k < out@.len() ==> (#[trigger] out@[k] == Err::<(), StepperError>(
                        StepperError::DuplicateId,
                    ) <==> add_phase(m0, names.take(k), oks_of(out@).take(k)).ids.contains(names[k])),
            decreases rest.len(),
        {
            let ghost k = out@.len() as int;
            let ghost before = out@;
            let ghost rest0 = rest@;
            let (id, s) = rest.remove(0);
            proof {
                assert(id@ == names[k]);
                assert forall|j: int| 0 <= j < rest@.len() implies #[trigger] rest@[j].0@ == names[n
                    - rest@.len() + j] by {
                    assert(rest@[j] == rest0[j + 1]);
                }
                assert forall|j: int| 0 <= j < rest@.len() implies #[trigger] rest@[j] == adds0[n
                    - rest@.len() + j] by {
                    assert(rest@[j] == rest0[j + 1]);
                }
                assert(rest0[0] == adds0[k]);
            }
            let res = self.registry.apply_add(id, s);
            out.push(res);
            proof {
                assert(names.take(k + 1).drop_last() =~= names.take(k));
                assert(oks_of(out@).drop_last() =~= oks_of(before));
                assert forall|j: int| 0 <= j <= k implies oks_of(out@).take(j) =~= oks_of(
                    before,
                ).take(j) by {}
                assert(oks_of(out@).take(k) =~= oks_of(before));
                assert(oks_of(before).take(k) =~= oks_of(before));
            }
        }
        proof {
            assert(names.take(n as int) =~= names);
        }
        out
    }

    /// Runs one frame: drains the queue, applies every removal, then every
    /// addition (initializing each new stepper), then steps the registered
    /// steppers with the frame's events. Held-back actions are queued last,
    /// for the next frame.
    pub fn run_frame(&mut self) -> (report: FrameReport)
        requires
            old(self).wf(),
        ensures
            final(self).wf(),
            final(self).pending() == old(self).deferred(),
            final(self).deferred() == Seq::<StepperAction<S>>::empty(),
            final(self).registry_view() == frame_model(
                old(self).registry_view(),
                old(self).pending(),
                oks_of(report.added@),
            ),
            forall|k: int|
                0 <= k < report.removed@.len() ==> #[trigger] report.removed@[k] is Err ==> report.removed@[k] == Err::<(), StepperError>(
                    StepperError::UnknownId,
                ),
            forall|k: int|
                0 <= k < report.added@.len() ==> #[trigger] report.added@[k] is Err ==> report.added@[k] == Err::<(), StepperError>(
                    StepperError::DuplicateId,
                ) || report.added@[k] == Err::<(), StepperError>(StepperError::InitializationFailed),
            forall|k: int|
                0 <= k < report.added@.len() && report.added@[k] != Err::<(), StepperError>(
                    StepperError::DuplicateId,
                ) ==> (#[trigger] report.added@[k] is Ok <==> add_steppers_of(
                    old(self).pending(),
                )[k].init_ok(adds_of(old(self).pending())[k])),
            final(self).instances().len() == final(self).registry_view().ids.len(),
            exists|before: Seq<S>|
                #[trigger] all_stepped(before, events_of(old(self).pending()), final(self).instances()),
            report.removed@.len() == removes_of(old(self).pending()).len(),
            report.added@.len() == adds_of(old(self).pending()).len(),
            forall|k: int|
                0 <= k < report.removed@.len() ==> (#[trigger] report.removed@[k] is Ok
                    <==> remove_phase(
                    old(self).registry_view(),
                    removes_of(old(self).pending()).take(k),
                ).ids.contains(removes_of(old(self).pending())[k])),
            forall|k: int|
                0 <= k < report.added@.len() ==> (#[trigger] report.added@[k] == Err::<
                    (),
                    StepperError,
                >(StepperError::DuplicateId) <==> add_phase(
                    remove_phase(old(self).registry_view(), removes_of(old(self).pending())),
                    adds_of(old(self).pending()).take(k),
                    oks_of(report.added@).take(k),
                ).ids.contains(adds_of(old(self).pending())[k])),
    {
        let actions = self.queue.drain();
        let plan = partition(actions);
        let FramePlan { removes, adds, events } = plan;
        let ghost add_list = adds@;
        let removed = self.apply_removes(removes);
        let added = self.apply_adds(adds);
        proof {
            assert forall|k: int| 0 <= k < add_list.len() implies add_list[k].1 == add_steppers_of(
                old(self).queue@,
            )[k] && add_list[k].0@ == adds_of(old(self).queue@)[k] by {
                assert(add_list.map_values(|a: (String, S)| a.1)[k] == add_list[k].1);
                assert(add_list.map_values(|a: (String, S)| a.0@)[k] == add_list[k].0@);
            }
        }
        let ghost pre = self.registry.instances();
        self.registry.step_active(&events);
        let ghost stepped_now = self.registry.instances();
        self.requeue_deferred();
        proof {
            assert(events@ == events_of(old(self).pending()));
            assert(self.instances() == stepped_now);
            assert(all_stepped(pre, events_of(old(self).pending()), self.instances()));
        }
        FrameReport { removed, added }
    }
}

} // verus!
