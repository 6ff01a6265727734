use vstd::prelude::*;

verus! {

/// A caller-chosen name that identifies one stepper instance.
pub type StepperId = String;

/// An application-level signal; its meaning is up to the receiving steppers.
#[derive(Clone, Debug)]
pub struct StepperEvent {
    pub source: StepperId,
    pub key: String,
    pub value: String,
}

/// A request flowing through the per-frame queue.
pub enum StepperAction<S> {
    /// Register a new stepper under the given id.
    Add(StepperId, S),
    /// Shut down and deregister the stepper with the given id.
    Remove(StepperId),
    /// An event handed to every active stepper.
    Event(StepperEvent),
}

impl<S> StepperAction<S> {
    /// An `Event` action built from its three parts.
    pub fn event(source: StepperId, key: String, value: String) -> (r: Self)
        ensures
            r matches StepperAction::Event(e) && e.source@ == source@ && e.key@ == key@
                && e.value@ == value@,
    {
        StepperAction::Event(StepperEvent { source, key, value })
    }
}

/// FIFO queue of actions, emptied once per frame by the owner of the frame loop.
pub struct ActionQueue<S> {
    items: Vec<StepperAction<S>>,
}

impl<S> View for ActionQueue<S> {
    type V = Seq<StepperAction<S>>;

    closed spec fn view(&self) -> Seq<StepperAction<S>> {
        self.items@
    }
}

impl<S> ActionQueue<S> {
    pub fn new() -> (r: Self)
        ensures
            r@ == Seq::<StepperAction<S>>::empty(),
    {
        ActionQueue { items: Vec::new() }
    }

    /// Appends an action at the tail; never fails.
    pub fn push(&mut self, action: StepperAction<S>)
        ensures
            final(self)@ == old(self)@.push(action),
    {
        self.items.push(action);
    }

    /// Number of actions waiting for the next drain.
    pub fn len(&self) -> (r: usize)
        ensures
            r == self@.len(),
    {
        self.items.len()
    }

    /// Empties the queue and hands back everything pushed since the last drain, in order.
    pub fn drain(&mut self) -> (r: Vec<StepperAction<S>>)
        ensures
            r@ == old(self)@,
            final(self)@ == Seq::<StepperAction<S>>::empty(),
    {
        let mut taken: Vec<StepperAction<S>> = Vec::new();
        std::mem::swap(&mut taken, &mut self.items);
        taken
    }
}

} // verus!
