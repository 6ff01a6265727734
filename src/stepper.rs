use vstd::prelude::*;
use crate::action::StepperEvent;

verus! {

/// A unit of per-frame behaviour with an initialize / step / shutdown lifecycle.
///
/// The registry is the only caller of these methods: `initialize` exactly once,
/// `step` once per frame while active, and `shutdown` exactly once at the end.
/// Each implementation says, through the spec functions, what its methods do;
/// left undefined they are unknown, and nothing can be proved of the calls.
pub trait Stepper: Sized {
    /// Whether `initialize` under `id` succeeds from this state.
    closed spec fn init_ok(&self, id: Seq<char>) -> bool {
        arbitrary()
    }

    /// `after` is what `initialize` under `id` makes of `before`.
    closed spec fn initialized(before: Self, id: Seq<char>, after: Self) -> bool {
        arbitrary()
    }

    /// `after` is what `step` with `events` makes of `before`.
    closed spec fn stepped(before: Self, events: Seq<StepperEvent>, after: Self) -> bool {
        arbitrary()
    }

    /// `after` is what `shutdown` makes of `before`.
    closed spec fn shut_down(before: Self, after: Self) -> bool {
        arbitrary()
    }

    /// Called once before any step; `false` discards the stepper.
    fn initialize(&mut self, id: &String) -> (r: bool)
        ensures
            r == old(self).init_ok(id@),
            Self::initialized(*old(self), id@, *final(self)),
    ;

    /// Whether the stepper currently considers itself enabled.
    fn enabled(&self) -> bool;

    /// One frame of work, with every event action of the frame.
    fn step(&mut self, events: &Vec<StepperEvent>)
        ensures
            Self::stepped(*old(self), events@, *final(self)),
    ;

    /// The sole cleanup hook, called exactly once.
    fn shutdown(&mut self)
        ensures
            Self::shut_down(*old(self), *final(self)),
    ;
}

/// Why an action was dropped.
#[derive(PartialEq, Eq, Structural, Clone, Copy, Debug)]
pub enum StepperError {
    /// An `Add` named an id that is already registered.
    DuplicateId,
    /// A `Remove` named an id that is not registered.
    UnknownId,
    /// The stepper's `initialize` returned false, or its native setup failed.
    InitializationFailed,
    /// A required extension or one of its entry points is absent.
    CapabilityUnavailable,
}

/// Which lifecycle method the registry called.
#[derive(PartialEq, Eq, Structural, Clone, Copy, Debug)]
pub enum CallKind {
    /// `initialize`, with the value it returned.
    Initialize(bool),
    Step,
    Shutdown,
}

/// One lifecycle call made by the registry, in the order it was made.
#[derive(Clone, Debug)]
pub struct LifecycleCall {
    pub id: String,
    pub kind: CallKind,
}

/// The abstract state of a registry: the registered ids in registration order,
/// and every lifecycle call made so far.
pub ghost struct RegistryView {
    pub ids: Seq<Seq<char>>,
    pub calls: Seq<(Seq<char>, CallKind)>,
}

/// Registering `id` whose `initialize` returned `ok`.
pub open spec fn add_one(m: RegistryView, id: Seq<char>, ok: bool) -> RegistryView {
    if m.ids.contains(id) {
        m
    } else if ok {
        RegistryView { ids: m.ids.push(id), calls: m.calls.push((id, CallKind::Initialize(true))) }
    } else {
        RegistryView {
            ids: m.ids,
            calls: m.calls.push((id, CallKind::Initialize(false))).push((id, CallKind::Shutdown)),
        }
    }
}

/// Shutting down and deregistering `id`.
pub open spec fn remove_one(m: RegistryView, id: Seq<char>) -> RegistryView {
    if m.ids.contains(id) {
        RegistryView { ids: m.ids.remove(m.ids.index_of(id)), calls: m.calls.push((id, CallKind::Shutdown)) }
    } else {
        m
    }
}

/// One step call for each registered id, in registration order.
pub open spec fn step_calls(ids: Seq<Seq<char>>) -> Seq<(Seq<char>, CallKind)> {
    ids.map_values(|id: Seq<char>| (id, CallKind::Step))
}

/// Stepping every registered stepper once.
pub open spec fn step_all(m: RegistryView) -> RegistryView {
    RegistryView { ids: m.ids, calls: m.calls + step_calls(m.ids) }
}

} // verus!
