use openxr_sys::{Space, VirtualKeyboardMETA};
use sk_steppers::{
    CapabilityState, ExtensionBinding, FrameScheduler, SetupRequest, SetupStage, Stepper,
    StepperAction, StepperError, StepperEvent, VirtualKbdMETA, KEYBOARD_SHOW, XR_SUCCESS,
};

fn full_binding() -> ExtensionBinding {
    let mut b = ExtensionBinding::new();
    for (i, name) in VirtualKbdMETA::required_functions().into_iter().enumerate() {
        b.bind(name, Some(0x1000 + i as u64));
    }
    b
}

fn binding_missing(missing: &str) -> ExtensionBinding {
    let mut b = ExtensionBinding::new();
    for (i, name) in VirtualKbdMETA::required_functions().into_iter().enumerate() {
        let handle = if name == missing { None } else { Some(0x1000 + i as u64) };
        b.bind(name, handle);
    }
    b
}

fn ready_keyboard(enable_on_init: bool) -> VirtualKbdMETA {
    let mut k = VirtualKbdMETA::new(enable_on_init);
    assert!(matches!(k.begin_setup(true, true, &full_binding()), SetupRequest::QuerySystemProperties));
    assert!(matches!(k.on_system_properties(XR_SUCCESS, true), SetupRequest::CreateKeyboard));
    let kbd = VirtualKeyboardMETA::from_raw(42);
    match k.on_keyboard_created(XR_SUCCESS, kbd) {
        SetupRequest::CreateKeyboardSpace(h) => assert_eq!(h, kbd),
        _ => panic!("expected a space request"),
    }
    assert!(matches!(k.on_space_created(XR_SUCCESS, Space::from_raw(9)), SetupRequest::Finished(true)));
    k
}

fn show(value: &str) -> StepperEvent {
    StepperEvent { source: "main".to_string(), key: KEYBOARD_SHOW.to_string(), value: value.to_string() }
}

#[test]
fn all_present_needs_every_entry() {
    assert!(ExtensionBinding::new().all_present());
    assert!(full_binding().all_present());
    assert!(!binding_missing("xrSendVirtualKeyboardInputMETA").all_present());
    assert!(!binding_missing("xrGetSystemProperties").all_present());
}

#[test]
fn binding_lookup_by_name() {
    let mut b = ExtensionBinding::new();
    b.bind("f".to_string(), Some(3));
    b.bind("g".to_string(), None);
    assert_eq!(b.len(), 2);
    assert_eq!(b.get(&"f".to_string()), Some(3));
    assert_eq!(b.get(&"g".to_string()), None);
    assert_eq!(b.get(&"h".to_string()), None);
    b.bind("g".to_string(), Some(5));
    assert_eq!(b.get(&"g".to_string()), Some(5));
}

#[test]
fn required_functions_are_the_eleven_entry_points() {
    let names = VirtualKbdMETA::required_functions();
    assert_eq!(names.len(), 11);
    assert_eq!(names[0], "xrGetSystemProperties");
    assert_eq!(names[2], "xrDestroyVirtualKeyboardMETA");
    assert_eq!(names[10], "xrSendVirtualKeyboardInputMETA");
}

#[test]
fn unavailable_component_ignores_enable() {
    let mut k = VirtualKbdMETA::new(true);
    assert_eq!(k.capability(), CapabilityState::Unavailable);
    k.enable(true);
    assert_eq!(k.capability(), CapabilityState::Unavailable);
    assert!(matches!(k.begin_setup(true, false, &full_binding()), SetupRequest::Finished(false)));
    assert_eq!(k.failure(), Some(StepperError::CapabilityUnavailable));
    k.enable(true);
    k.step(&vec![show("1")]);
    assert_eq!(k.capability(), CapabilityState::Unavailable);
    assert!(!k.enabled());
}

#[test]
fn two_components_with_a_missing_entry_point_stay_disabled() {
    let binding = binding_missing("xrGetVirtualKeyboardScaleMETA");
    let mut first = VirtualKbdMETA::new(true);
    let mut second = VirtualKbdMETA::default();
    assert!(matches!(first.begin_setup(true, true, &binding), SetupRequest::Finished(false)));
    assert!(matches!(second.begin_setup(true, true, &binding), SetupRequest::Finished(false)));
    for k in [&mut first, &mut second] {
        assert_eq!(k.failure(), Some(StepperError::CapabilityUnavailable));
        k.enable(true);
        assert_eq!(k.capability(), CapabilityState::Unavailable);
        assert!(!k.enabled());
    }
    let mut s: FrameScheduler<VirtualKbdMETA> = FrameScheduler::new();
    s.push_action(StepperAction::Add("kbd1".to_string(), first));
    s.push_action(StepperAction::Add("kbd2".to_string(), second));
    let report = s.run_frame();
    assert_eq!(report.added, vec![Err(StepperError::InitializationFailed), Err(StepperError::InitializationFailed)]);
    assert!(s.registry().iterate_active().is_empty());
}

#[test]
fn not_an_openxr_runtime_is_unavailable() {
    let mut k = VirtualKbdMETA::new(false);
    assert!(matches!(k.begin_setup(false, true, &full_binding()), SetupRequest::Finished(false)));
    assert_eq!(k.stage(), SetupStage::Failed);
    assert_eq!(k.failure(), Some(StepperError::CapabilityUnavailable));
}

#[test]
fn successful_setup_honours_enable_on_init() {
    let k = ready_keyboard(true);
    assert_eq!(k.stage(), SetupStage::Ready);
    assert_eq!(k.capability(), CapabilityState::AvailableEnabled);
    assert_eq!(k.keyboard_space(), Some(Space::from_raw(9)));
    let k = ready_keyboard(false);
    assert_eq!(k.capability(), CapabilityState::AvailableDisabled);
    assert_eq!(k.failure(), None);
}

#[test]
fn enable_flips_and_is_idempotent() {
    let mut k = ready_keyboard(false);
    k.enable(true);
    assert_eq!(k.capability(), CapabilityState::AvailableEnabled);
    k.enable(true);
    assert_eq!(k.capability(), CapabilityState::AvailableEnabled);
    k.enable(false);
    assert_eq!(k.capability(), CapabilityState::AvailableDisabled);
}

#[test]
fn show_events_switch_the_keyboard() {
    let mut k = ready_keyboard(false);
    let other = StepperEvent { source: "main".to_string(), key: "Other".to_string(), value: "1".to_string() };
    k.step(&vec![other.clone()]);
    assert!(!k.enabled());
    k.step(&vec![show("1")]);
    assert!(k.enabled());
    k.step(&vec![show("0")]);
    assert!(!k.enabled());
    k.step(&vec![show("0"), show("yes"), other]);
    assert!(k.enabled());
}

#[test]
fn failed_system_query_stops_setup() {
    let mut k = VirtualKbdMETA::new(true);
    k.begin_setup(true, true, &full_binding());
    assert!(matches!(k.on_system_properties(XR_SUCCESS, false), SetupRequest::Finished(false)));
    assert_eq!(k.failure(), Some(StepperError::InitializationFailed));
    let mut k = VirtualKbdMETA::new(true);
    k.begin_setup(true, true, &full_binding());
    assert!(matches!(k.on_system_properties(-1, true), SetupRequest::Finished(false)));
    assert_eq!(k.capability(), CapabilityState::Unavailable);
}

#[test]
fn failed_keyboard_creation_holds_nothing() {
    let mut k = VirtualKbdMETA::new(true);
    k.begin_setup(true, true, &full_binding());
    k.on_system_properties(XR_SUCCESS, true);
    assert!(matches!(k.on_keyboard_created(-2, VirtualKeyboardMETA::from_raw(5)), SetupRequest::Finished(false)));
    assert_eq!(k.failure(), Some(StepperError::InitializationFailed));
    k.shutdown();
    assert_eq!(k.take_release(), None);
}

#[test]
fn failed_space_creation_still_releases_keyboard_once() {
    let mut k = VirtualKbdMETA::new(true);
    k.begin_setup(true, true, &full_binding());
    k.on_system_properties(XR_SUCCESS, true);
    k.on_keyboard_created(XR_SUCCESS, VirtualKeyboardMETA::from_raw(5));
    assert!(matches!(k.on_space_created(-3, Space::from_raw(1)), SetupRequest::Finished(false)));
    assert_eq!(k.capability(), CapabilityState::Unavailable);
    assert!(!k.initialize(&"kbd".to_string()));
    k.shutdown();
    assert_eq!(k.take_release(), Some(VirtualKeyboardMETA::from_raw(5)));
    k.shutdown();
    assert_eq!(k.take_release(), None);
}

#[test]
fn ready_keyboard_runs_under_the_scheduler() {
    let mut s: FrameScheduler<VirtualKbdMETA> = FrameScheduler::new();
    s.push_action(StepperAction::Add("kbd".to_string(), ready_keyboard(false)));
    s.push_action(StepperAction::event("main".to_string(), KEYBOARD_SHOW.to_string(), "1".to_string()));
    let report = s.run_frame();
    assert_eq!(report.added, vec![Ok(())]);
    assert_eq!(s.registry().iterate_active(), vec!["kbd".to_string()]);
    assert!(s.take_retired().is_empty());
    s.push_action(StepperAction::Remove("kbd".to_string()));
    let report = s.run_frame();
    assert_eq!(report.removed, vec![Ok(())]);
    assert!(s.registry().iterate_active().is_empty());
    let mut retired = s.take_retired();
    assert_eq!(retired.len(), 1);
    assert!(!retired[0].enabled());
    assert_eq!(retired[0].take_release(), Some(VirtualKeyboardMETA::from_raw(42)));
    assert!(s.take_retired().is_empty());
}

#[test]
fn shutdown_disables_and_releases_once() {
    let mut k = ready_keyboard(true);
    assert!(k.initialize(&"kbd".to_string()));
    k.shutdown();
    assert!(!k.enabled());
    assert_eq!(k.capability(), CapabilityState::AvailableDisabled);
    assert_eq!(k.take_release(), Some(VirtualKeyboardMETA::from_raw(42)));
    assert_eq!(k.take_release(), None);
    k.shutdown();
    assert_eq!(k.take_release(), None);
}

#[test]
fn shutdown_before_setup_is_a_no_op() {
    let mut k = VirtualKbdMETA::new(false);
    k.shutdown();
    assert_eq!(k.take_release(), None);
    assert_eq!(k.capability(), CapabilityState::Unavailable);
}

#[test]
fn initialize_without_setup_records_why() {
    let mut k = VirtualKbdMETA::new(true);
    assert!(!k.initialize(&"kbd".to_string()));
    assert_eq!(k.id(), "kbd");
    assert_eq!(k.stage(), SetupStage::Failed);
    assert_eq!(k.failure(), Some(StepperError::CapabilityUnavailable));
    k.enable(true);
    assert_eq!(k.capability(), CapabilityState::Unavailable);
}

#[test]
fn initialize_after_failed_setup_keeps_the_reason() {
    let mut k = VirtualKbdMETA::new(true);
    k.begin_setup(true, true, &full_binding());
    k.on_system_properties(-1, true);
    assert!(!k.initialize(&"kbd".to_string()));
    assert_eq!(k.failure(), Some(StepperError::InitializationFailed));
}
