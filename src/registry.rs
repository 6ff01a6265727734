use vstd::prelude::*;
use crate::action::{StepperEvent, StepperId};
use crate::stepper::{
    add_one, remove_one, step_all, step_calls, CallKind, LifecycleCall, RegistryView, Stepper,
    StepperError,
};

verus! {

struct Registered<S> {
    id: StepperId,
    stepper: S,
}

/// Owns every active stepper, keyed by a unique id, in registration order.
/// Steppers it has shut down wait in a retired list until the host takes them
/// back for native cleanup.
pub struct StepperRegistry<S> {
    entries: Vec<Registered<S>>,
    calls: Vec<LifecycleCall>,
    retired: Vec<S>,
}

pub open spec fn call_view(c: LifecycleCall) -> (Seq<char>, CallKind) {
    (c.id@, c.kind)
}

impl<S> View for StepperRegistry<S> {
    type V = RegistryView;

    closed spec fn view(&self) -> RegistryView {
        RegistryView {
            ids: self.entries@.map_values(|e: Registered<S>| e.id@),
            calls: self.calls@.map_values(|c: LifecycleCall| call_view(c)),
        }
    }
}

/// In a registry without duplicate ids, `index_of` finds the one position of an id.
proof fn lemma_index_of_unique(ids: Seq<Seq<char>>, i: int)
    requires
        ids.no_duplicates(),
        0 <= i < ids.len(),
    ensures
        ids.contains(ids[i]),
        ids.index_of(ids[i]) == i,
{
    assert(ids.contains(ids[i]));
}

impl<S: Stepper> StepperRegistry<S> {
    /// The registered instances, in registration order: the one at `i` is
    /// registered under `self@.ids[i]`.
    pub closed spec fn instances(&self) -> Seq<S> {
        self.entries@.map_values(|e: Registered<S>| e.stepper)
    }

    /// The instances shut down and not yet taken back, oldest first.
    pub closed spec fn retired(&self) -> Seq<S> {
        self.retired@
    }

    /// Registered ids are unique, one per instance.
    pub open spec fn wf(&self) -> bool {
        &&& self@.ids.no_duplicates()
        &&& self.instances().len() == self@.ids.len()
    }

    pub fn new() -> (r: Self)
        ensures
            r.wf(),
            r@.ids == Seq::<Seq<char>>::empty(),
            r@.calls == Seq::<(Seq<char>, CallKind)>::empty(),
            r.retired() == Seq::<S>::empty(),
    {
        let r = StepperRegistry { entries: Vec::new(), calls: Vec::new(), retired: Vec::new() };
        assert(r@.ids =~= Seq::<Seq<char>>::empty());
        assert(r@.calls =~= Seq::<(Seq<char>, CallKind)>::empty());
        r
    }

    /// Position of `id` in registration order, if it is registered.
    fn find(&self, id: &String) -> (r: Option<usize>)
        ensures
            match r {
                Some(i) => i < self@.ids.len() && self@.ids[i as int] == id@,
                None => !self@.ids.contains(id@),
            },
    {
        let mut i: usize = 0;
        while i < self.entries.len()
            invariant
                i <= self.entries@.len(),
                self@.ids.len() == self.entries@.len(),
                forall|j: int| 0 <= j < i ==> self@.ids[j] != id@,
            decreases self.entries.len() - i,
        {
            if self.entries[i].id == *id {
                return Some(i);
            }
            i = i + 1;
        }
        None
    }

    /// Whether `id` is registered.
    pub fn contains(&self, id: &String) -> (r: bool)
        ensures
            r == self@.ids.contains(id@),
    {
        self.find(id).is_some()
    }

    /// Number of registered steppers.
    pub fn len(&self) -> (r: usize)
        ensures
            r == self@.ids.len(),
    {
        self.entries.len()
    }

    /// Every lifecycle call made so far, oldest first.
    pub fn calls(&self) -> (r: &Vec<LifecycleCall>)
        ensures
            r@.map_values(|c: LifecycleCall| call_view(c)) == self@.calls,
    {
        &self.calls
    }

    /// Registers `stepper` under `id` and initializes it. A duplicate id is
    /// rejected with nothing called; a stepper whose `initialize` returns false
    /// is shut down at once and never registered.
    pub fn apply_add(&mut self, id: StepperId, stepper: S) -> (r: Result<(), StepperError>)
        requires
            old(self).wf(),
        ensures
            final(self).wf(),
            final(self)@ == add_one(old(self)@, id@, r is Ok),
            old(self)@.ids.contains(id@) <==> r == Err::<(), StepperError>(StepperError::DuplicateId),
            old(self)@.ids.contains(id@) ==> final(self)@ == old(self)@ && final(self).instances()
                == old(self).instances() && final(self).retired() == old(self).retired(),
            !old(self)@.ids.contains(id@) ==> (r is Ok <==> stepper.init_ok(id@)),
            r is Ok ==> final(self).instances() == old(self).instances().push(
                final(self).instances().last(),
            ) && S::initialized(stepper, id@, final(self).instances().last()) && final(self).retired()
                == old(self).retired(),
            r == Err::<(), StepperError>(StepperError::InitializationFailed) ==> final(self).instances()
                == old(self).instances() && final(self).retired() == old(self).retired().push(
                final(self).retired().last(),
            ) && exists|s: S|
                S::initialized(stepper, id@, s) && #[trigger] S::shut_down(
                    s,
                    final(self).retired().last(),
                ),
            r is Err ==> r == Err::<(), StepperError>(StepperError::DuplicateId) || r == Err::<
                (),
                StepperError,
            >(StepperError::InitializationFailed),
    {
        if self.find(&id).is_some() {
            return Err(StepperError::DuplicateId);
        }
        let mut s = stepper;
        let ok = s.initialize(&id);
        let ghost s1 = s;
        self.calls.push(LifecycleCall { id: id.clone(), kind: CallKind::Initialize(ok) });
        if ok {
            self.entries.push(Registered { id, stepper: s });
            proof {
                let ids = self@.ids;
                assert(ids =~= old(self)@.ids.push(id@));
                assert forall|a: int, b: int| 0 <= a < ids.len() && 0 <= b < ids.len() && a != b
                    implies ids[a] != ids[b] by {
                    if a == ids.len() - 1 || b == ids.len() - 1 {
                    }
                }
                assert(self@.calls =~= old(self)@.calls.push((id@, CallKind::Initialize(true))));
                assert(self.instances() =~= old(self).instances().push(s1));
            }
            Ok(())
        } else {
            s.shutdown();
            self.calls.push(LifecycleCall { id: id.clone(), kind: CallKind::Shutdown });
            self.retired.push(s);
            proof {
                assert(self.instances() =~= old(self).instances());
                assert(S::shut_down(s1, self.retired().last()));
                assert(self@.ids =~= old(self)@.ids);
                assert(self@.calls =~= old(self)@.calls.push((id@, CallKind::Initialize(false))).push(
                    (id@, CallKind::Shutdown),
                ));
            }
            Err(StepperError::InitializationFailed)
        }
    }

    /// Shuts down and deregisters the stepper with `id`; the others keep their order.
    pub fn apply_remove(&mut self, id: &StepperId) -> (r: Result<(), StepperError>)
        requires
            old(self).wf(),
        ensures
            final(self).wf(),
            final(self)@ == remove_one(old(self)@, id@),
            r is Err <==> !old(self)@.ids.contains(id@),
            r is Err ==> r == Err::<(), StepperError>(StepperError::UnknownId),
            !old(self)@.ids.contains(id@) ==> final(self)@ == old(self)@ && final(self).instances()
                == old(self).instances() && final(self).retired() == old(self).retired(),
            old(self)@.ids.contains(id@) ==> final(self).instances() == old(self).instances().remove(
                old(self)@.ids.index_of(id@),
            ) && final(self).retired() == old(self).retired().push(final(self).retired().last())
                && S::shut_down(
                old(self).instances()[old(self)@.ids.index_of(id@)],
                final(self).retired().last(),
            ),
    {
        match self.find(id) {
            None => Err(StepperError::UnknownId),
            Some(i) => {
                proof {
                    lemma_index_of_unique(old(self)@.ids, i as int);
                }
                let mut e = self.entries.remove(i);
                let ghost before = e.stepper;
                assert(before == old(self).instances()[i as int]);
                e.stepper.shutdown();
                self.calls.push(LifecycleCall { id: id.clone(), kind: CallKind::Shutdown });
                self.retired.push(e.stepper);
                proof {
                    let ids = self@.ids;
                    let o = old(self)@.ids;
                    assert(ids =~= o.remove(i as int));
                    assert forall|a: int, b: int| 0 <= a < ids.len() && 0 <= b < ids.len() && a != b
                        implies ids[a] != ids[b] by {
                        let a2 = if a < i { a } else { a + 1 };
                        let b2 = if b < i { b } else { b + 1 };
                        assert(ids[a] == o[a2]);
                        assert(ids[b] == o[b2]);
                    }
                    assert(self@.calls =~= old(self)@.calls.push((id@, CallKind::Shutdown)));
                    assert(self.instances() =~= old(self).instances().remove(i as int));
                }
                Ok(())
            },
        }
    }

    /// Steps every registered stepper once, in registration order, with the
    /// frame's events.
    pub fn step_active(&mut self, events: &Vec<StepperEvent>)
        requires
            old(self).wf(),
        ensures
            final(self).wf(),
            final(self)@ == step_all(old(self)@),
            final(self).retired() == old(self).retired(),
            final(self).instances().len() == old(self).instances().len(),
            forall|i: int|
                0 <= i < old(self).instances().len() ==> S::stepped(
                    old(self).instances()[i],
                    events@,
                    #[trigger] final(self).instances()[i],
                ),
    {
        let n = self.entries.len();
        let mut i: usize = 0;
        while i < n
            invariant
                n == old(self)@.ids.len(),
                i <= n,
                self@.ids == old(self)@.ids,
                self@.calls == old(self)@.calls + step_calls(old(self)@.ids.take(i as int)),
                self.retired@ == old(self).retired@,
                self.instances().len() == n,
                forall|j: int|
                    0 <= j < i ==> S::stepped(
                        old(self).instances()[j],
                        events@,
                        #[trigger] self.instances()[j],
                    ),
                forall|j: int| i <= j < n ==> #[trigger] self.instances()[j] == old(self).instances()[j],
            decreases n - i,
        {
            proof {
                assert(self.entries@.len() == self@.ids.len());
            }
            let ghost want = self@.ids[i as int];
            let ghost prev = self@.calls;
            let ghost insts = self.instances();
            let ghost entries0 = self.entries@;
            assert(insts[i as int] == old(self).instances()[i as int]);
            assert(insts[i as int] == entries0[i as int].stepper);
            let mut e = self.entries.remove(i);
            assert(e == entries0[i as int]);
            let name = e.id.clone();
            assert(name@ == want);
            let ghost before = e.stepper;
            assert(before == old(self).instances()[i as int]);
            e.stepper.step(events);
            let ghost after = e.stepper;
            self.entries.insert(i, e);
            assert(self.instances()[i as int] == after);
            self.calls.push(LifecycleCall { id: name, kind: CallKind::Step });
            proof {
                assert forall|j: int| 0 <= j < n && j != i implies #[trigger] self.instances()[j]
                    == insts[j] by {}
                assert(self@.ids =~= old(self)@.ids);
                assert(old(self)@.ids.take(i + 1) =~= old(self)@.ids.take(i as int).push(
                    old(self)@.ids[i as int],
                ));
                assert(self@.calls =~= prev.push((want, CallKind::Step)));
                assert(step_calls(old(self)@.ids.take(i + 1)) =~= step_calls(
                    old(self)@.ids.take(i as int),
                ).push((want, CallKind::Step)));
                assert(self@.calls =~= old(self)@.calls + step_calls(old(self)@.ids.take(i + 1)));
            }
            i = i + 1;
        }
        proof {
            assert(old(self)@.ids.take(n as int) =~= old(self)@.ids);
        }
    }

    /// Hands back every stepper shut down since the last call, oldest first,
    /// so that native resources they released can be destroyed.
    pub fn take_retired(&mut self) -> (r: Vec<S>)
        requires
            old(self).wf(),
        ensures
            final(self).wf(),
            final(self)@ == old(self)@,
            r@ == old(self).retired(),
            final(self).retired() == Seq::<S>::empty(),
            final(self).instances() == old(self).instances(),
    {
        let mut out: Vec<S> = Vec::new();
        std::mem::swap(&mut out, &mut self.retired);
        out
    }

    /// The ids of the active steppers, in registration order.
    pub fn iterate_active(&self) -> (r: Vec<StepperId>)
        ensures
            r@.map_values(|s: String| s@) == self@.ids,
    {
        let mut out: Vec<StepperId> = Vec::new();
        let mut i: usize = 0;
        while i < self.entries.len()
            invariant
                i <= self.entries@.len(),
                self@.ids.len() == self.entries@.len(),
                out@.map_values(|s: String| s@) == self@.ids.take(i as int),
            decreases self.entries.len() - i,
        {
            out.push(self.entries[i].id.clone());
            proof {
                assert(self@.ids.take(i + 1) =~= self@.ids.take(i as int).push(self@.ids[i as int]));
                assert(out@.map_values(|s: String| s@) =~= self@.ids.take(i + 1));
            }
            i = i + 1;
        }
        proof {
            assert(self@.ids.take(i as int) =~= self@.ids);
        }
        out
    }
}

} // verus!
