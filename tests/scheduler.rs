use std::cell::RefCell;
use std::rc::Rc;

use sk_steppers::{
    partition, ActionQueue, CallKind, FrameScheduler, Stepper, StepperAction, StepperError,
    StepperEvent, StepperRegistry,
};

type Log = Rc<RefCell<Vec<String>>>;

struct Probe {
    tag: &'static str,
    init_ok: bool,
    log: Log,
}

impl Stepper for Probe {
    fn initialize(&mut self, id: &String) -> bool {
        self.log.borrow_mut().push(format!("init {} {}", id, self.tag));
        self.init_ok
    }

    fn enabled(&self) -> bool {
        true
    }

    fn step(&mut self, events: &Vec<StepperEvent>) {
        self.log.borrow_mut().push(format!("step {} {}", self.tag, events.len()));
    }

    fn shutdown(&mut self) {
        self.log.borrow_mut().push(format!("shutdown {}", self.tag));
    }
}

fn probe(tag: &'static str, init_ok: bool, log: &Log) -> Probe {
    Probe { tag, init_ok, log: log.clone() }
}

fn count(log: &Log, entry: &str) -> usize {
    log.borrow().iter().filter(|e| e.as_str() == entry).count()
}

fn add(id: &str, p: Probe) -> StepperAction<Probe> {
    StepperAction::Add(id.to_string(), p)
}

fn remove(id: &str) -> StepperAction<Probe> {
    StepperAction::Remove(id.to_string())
}

#[test]
fn add_step_then_remove() {
    let log: Log = Rc::new(RefCell::new(Vec::new()));
    let mut s: FrameScheduler<Probe> = FrameScheduler::new();
    s.push_action(add("A", probe("a", true, &log)));
    let report = s.run_frame();
    assert_eq!(report.added, vec![Ok(())]);
    assert_eq!(s.registry().iterate_active(), vec!["A".to_string()]);
    assert_eq!(count(&log, "step a 0"), 1);

    s.push_action(remove("A"));
    let report = s.run_frame();
    assert_eq!(report.removed, vec![Ok(())]);
    assert_eq!(count(&log, "shutdown a"), 1);
    assert!(s.registry().iterate_active().is_empty());
    assert_eq!(count(&log, "step a 0"), 1);
}

#[test]
fn failed_initialize_is_shut_down_once_and_never_stepped() {
    let log: Log = Rc::new(RefCell::new(Vec::new()));
    let mut s: FrameScheduler<Probe> = FrameScheduler::new();
    s.push_action(add("B", probe("b", false, &log)));
    let report = s.run_frame();
    assert_eq!(report.added, vec![Err(StepperError::InitializationFailed)]);
    assert!(s.registry().iterate_active().is_empty());
    s.run_frame();
    s.run_frame();
    assert_eq!(count(&log, "shutdown b"), 1);
    assert_eq!(*log.borrow(), vec!["init B b".to_string(), "shutdown b".to_string()]);
    let kinds: Vec<CallKind> = s.registry().calls().iter().map(|c| c.kind).collect();
    assert_eq!(kinds, vec![CallKind::Initialize(false), CallKind::Shutdown]);
}

#[test]
fn active_ids_follow_add_order_without_removed() {
    let log: Log = Rc::new(RefCell::new(Vec::new()));
    let mut r: StepperRegistry<Probe> = StepperRegistry::new();
    for id in ["c", "a", "d", "b"] {
        assert_eq!(r.apply_add(id.to_string(), probe("x", true, &log)), Ok(()));
    }
    assert_eq!(r.apply_remove(&"d".to_string()), Ok(()));
    assert_eq!(r.apply_remove(&"c".to_string()), Ok(()));
    assert_eq!(r.apply_add("e".to_string(), probe("x", true, &log)), Ok(()));
    assert_eq!(r.iterate_active(), vec!["a".to_string(), "b".to_string(), "e".to_string()]);
}

#[test]
fn one_action_per_frame_keeps_add_order() {
    let log: Log = Rc::new(RefCell::new(Vec::new()));
    let mut s: FrameScheduler<Probe> = FrameScheduler::new();
    let actions = vec![add("x", probe("x", true, &log)), add("y", probe("y", true, &log)), remove("x"), add("z", probe("z", true, &log))];
    for a in actions {
        s.push_action(a);
        s.run_frame();
    }
    assert_eq!(s.registry().iterate_active(), vec!["y".to_string(), "z".to_string()]);
}

#[test]
fn duplicate_add_is_rejected_and_changes_nothing() {
    let log: Log = Rc::new(RefCell::new(Vec::new()));
    let mut r: StepperRegistry<Probe> = StepperRegistry::new();
    assert_eq!(r.apply_add("A".to_string(), probe("first", true, &log)), Ok(()));
    let calls_before = r.calls().len();
    assert_eq!(r.apply_add("A".to_string(), probe("second", true, &log)), Err(StepperError::DuplicateId));
    assert_eq!(r.iterate_active(), vec!["A".to_string()]);
    assert_eq!(r.calls().len(), calls_before);
    assert_eq!(count(&log, "init A second"), 0);
}

#[test]
fn duplicate_add_in_a_frame_is_reported() {
    let log: Log = Rc::new(RefCell::new(Vec::new()));
    let mut s: FrameScheduler<Probe> = FrameScheduler::new();
    s.push_action(add("A", probe("first", true, &log)));
    s.push_action(add("A", probe("second", true, &log)));
    let report = s.run_frame();
    assert_eq!(report.added, vec![Ok(()), Err(StepperError::DuplicateId)]);
    assert_eq!(s.registry().len(), 1);
}

#[test]
fn removing_an_absent_id_fails_and_changes_nothing() {
    let log: Log = Rc::new(RefCell::new(Vec::new()));
    let mut r: StepperRegistry<Probe> = StepperRegistry::new();
    assert_eq!(r.apply_remove(&"ghost".to_string()), Err(StepperError::UnknownId));
    assert_eq!(r.apply_add("A".to_string(), probe("a", true, &log)), Ok(()));
    let calls_before = r.calls().len();
    assert_eq!(r.apply_remove(&"ghost".to_string()), Err(StepperError::UnknownId));
    assert_eq!(r.iterate_active(), vec!["A".to_string()]);
    assert_eq!(r.calls().len(), calls_before);
    assert_eq!(count(&log, "shutdown a"), 0);
}

#[test]
fn same_frame_remove_and_add_shuts_down_before_initializing() {
    let log: Log = Rc::new(RefCell::new(Vec::new()));
    let mut s: FrameScheduler<Probe> = FrameScheduler::new();
    s.push_action(add("A", probe("old", true, &log)));
    s.run_frame();
    // The add is queued first: removals still go first.
    s.push_action(add("A", probe("new", true, &log)));
    s.push_action(remove("A"));
    let report = s.run_frame();
    assert_eq!(report.removed, vec![Ok(())]);
    assert_eq!(report.added, vec![Ok(())]);
    let entries = log.borrow().clone();
    let shut = entries.iter().position(|e| e == "shutdown old").unwrap();
    let init = entries.iter().position(|e| e == "init A new").unwrap();
    assert!(shut < init);
    assert_eq!(s.registry().iterate_active(), vec!["A".to_string()]);
    assert_eq!(entries.last().unwrap(), "step new 0");
}

#[test]
fn events_reach_every_active_stepper_unfiltered() {
    let log: Log = Rc::new(RefCell::new(Vec::new()));
    let mut s: FrameScheduler<Probe> = FrameScheduler::new();
    s.push_action(add("A", probe("a", true, &log)));
    s.push_action(add("B", probe("b", true, &log)));
    s.push_action(StepperAction::event("main".to_string(), "k1".to_string(), "1".to_string()));
    s.push_action(StepperAction::event("main".to_string(), "k2".to_string(), "0".to_string()));
    s.run_frame();
    assert_eq!(count(&log, "step a 2"), 1);
    assert_eq!(count(&log, "step b 2"), 1);
    let order: Vec<String> = log.borrow().iter().filter(|e| e.starts_with("step")).cloned().collect();
    assert_eq!(order, vec!["step a 2".to_string(), "step b 2".to_string()]);
    s.run_frame();
    assert_eq!(count(&log, "step a 0"), 1);
}

#[test]
fn lifecycle_calls_are_recorded_in_order() {
    let log: Log = Rc::new(RefCell::new(Vec::new()));
    let mut s: FrameScheduler<Probe> = FrameScheduler::new();
    s.push_action(add("A", probe("a", true, &log)));
    s.run_frame();
    s.push_action(remove("A"));
    s.run_frame();
    let calls: Vec<(String, CallKind)> = s.registry().calls().iter().map(|c| (c.id.clone(), c.kind)).collect();
    assert_eq!(
        calls,
        vec![
            ("A".to_string(), CallKind::Initialize(true)),
            ("A".to_string(), CallKind::Step),
            ("A".to_string(), CallKind::Shutdown),
        ]
    );
}

#[test]
fn queue_drains_in_fifo_order_once() {
    let mut q: ActionQueue<()> = ActionQueue::new();
    let drained = q.drain();
    assert!(drained.is_empty());
    q.push(StepperAction::Remove("1".to_string()));
    q.push(StepperAction::Add("2".to_string(), ()));
    q.push(StepperAction::Remove("3".to_string()));
    assert_eq!(q.len(), 3);
    let drained = q.drain();
    assert_eq!(q.len(), 0);
    let ids: Vec<String> = drained
        .iter()
        .map(|a| match a {
            StepperAction::Add(id, _) => id.clone(),
            StepperAction::Remove(id) => id.clone(),
            StepperAction::Event(e) => e.key.clone(),
        })
        .collect();
    assert_eq!(ids, vec!["1".to_string(), "2".to_string(), "3".to_string()]);
    assert!(q.drain().is_empty());
}

#[test]
fn partition_keeps_order_within_each_kind() {
    let actions: Vec<StepperAction<u8>> = vec![
        StepperAction::Add("a".to_string(), 1),
        StepperAction::Remove("r1".to_string()),
        StepperAction::event("s".to_string(), "k".to_string(), "v".to_string()),
        StepperAction::Add("b".to_string(), 2),
        StepperAction::Remove("r2".to_string()),
    ];
    let plan = partition(actions);
    assert_eq!(plan.removes, vec!["r1".to_string(), "r2".to_string()]);
    assert_eq!(plan.adds, vec![("a".to_string(), 1), ("b".to_string(), 2)]);
    assert_eq!(plan.events.len(), 1);
    assert_eq!(plan.events[0].key, "k");
}

#[test]
fn swap_spreads_over_two_frames() {
    let log: Log = Rc::new(RefCell::new(Vec::new()));
    let mut s: FrameScheduler<Probe> = FrameScheduler::new();
    s.push_action(add("scene1", probe("one", true, &log)));
    s.run_frame();
    s.swap_stepper("scene1".to_string(), "scene2".to_string(), probe("two", true, &log));
    let report = s.run_frame();
    assert_eq!(report.removed, vec![Ok(())]);
    assert!(report.added.is_empty());
    assert!(s.registry().iterate_active().is_empty());
    assert_eq!(count(&log, "init scene2 two"), 0);
    let report = s.run_frame();
    assert_eq!(report.added, vec![Ok(())]);
    assert_eq!(s.registry().iterate_active(), vec!["scene2".to_string()]);
    let entries = log.borrow().clone();
    let shut = entries.iter().position(|e| e == "shutdown one").unwrap();
    let init = entries.iter().position(|e| e == "init scene2 two").unwrap();
    assert!(shut < init);
}

#[test]
fn held_back_action_waits_one_frame() {
    let log: Log = Rc::new(RefCell::new(Vec::new()));
    let mut s: FrameScheduler<Probe> = FrameScheduler::new();
    s.push_after_next_frame(add("late", probe("late", true, &log)));
    s.run_frame();
    assert!(s.registry().iterate_active().is_empty());
    s.run_frame();
    assert_eq!(s.registry().iterate_active(), vec!["late".to_string()]);
}

#[test]
fn retired_steppers_are_handed_back_once() {
    let log: Log = Rc::new(RefCell::new(Vec::new()));
    let mut s: FrameScheduler<Probe> = FrameScheduler::new();
    s.push_action(add("A", probe("a", true, &log)));
    s.push_action(add("B", probe("b", false, &log)));
    s.run_frame();
    let retired = s.take_retired();
    assert_eq!(retired.len(), 1);
    assert_eq!(retired[0].tag, "b");
    s.push_action(remove("A"));
    s.run_frame();
    let retired = s.take_retired();
    assert_eq!(retired.len(), 1);
    assert_eq!(retired[0].tag, "a");
    assert!(s.take_retired().is_empty());
}
