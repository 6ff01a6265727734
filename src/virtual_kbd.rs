use vstd::prelude::*;
use openxr_sys::{Space, VirtualKeyboardMETA};
use crate::action::{StepperEvent, StepperId};
use crate::binder::{complete, ExtensionBinding};
use crate::stepper::{Stepper, StepperError};
use crate::xr::XR_SUCCESS;

verus! {

/// Key of the event that shows (any value but "0") or hides ("0") the keyboard.
pub const KEYBOARD_SHOW: &'static str = "KeyboardShow";

/// Name of the runtime extension the keyboard needs.
pub const VIRTUAL_KEYBOARD_EXTENSION: &'static str = "XR_META_virtual_keyboard";

/// Availability of a capability-gated component.
#[derive(PartialEq, Eq, Structural, Clone, Copy, Debug)]
pub enum CapabilityState {
    Unavailable,
    AvailableDisabled,
    AvailableEnabled,
}

/// Where the one-time native setup stands.
#[derive(PartialEq, Eq, Structural, Clone, Copy, Debug)]
pub enum SetupStage {
    NotStarted,
    QuerySystemProperties,
    CreateKeyboard,
    CreateKeyboardSpace,
    Ready,
    Failed,
}

/// The native call the setup asks for next, or its verdict.
pub enum SetupRequest {
    /// Query the system properties and whether they report keyboard support.
    QuerySystemProperties,
    /// Create the virtual keyboard object.
    CreateKeyboard,
    /// Create the keyboard's coordinate space for this keyboard.
    CreateKeyboardSpace(VirtualKeyboardMETA),
    /// Setup is over; `true` when the extension is usable.
    Finished(bool),
}

/// The abstract state of the component.
pub ghost struct KbdView {
    pub id: Seq<char>,
    pub ext_available: bool,
    pub enabled: bool,
    pub enable_on_init: bool,
    pub stage: SetupStage,
    pub keyboard: Option<VirtualKeyboardMETA>,
    pub space: Option<Space>,
    pub to_release: Option<VirtualKeyboardMETA>,
    pub failure: Option<StepperError>,
}

impl KbdView {
    /// Only an available component can be enabled.
    pub open spec fn wf(self) -> bool {
        self.enabled ==> self.ext_available
    }
}

pub open spec fn capability_of(v: KbdView) -> CapabilityState {
    if !v.ext_available {
        CapabilityState::Unavailable
    } else if v.enabled {
        CapabilityState::AvailableEnabled
    } else {
        CapabilityState::AvailableDisabled
    }
}

/// `enable(value)`: only an available component changes.
pub open spec fn enable_spec(v: KbdView, value: bool) -> KbdView {
    if v.ext_available {
        KbdView { enabled: value, ..v }
    } else {
        v
    }
}

/// What the show / hide events of a frame do, in order.
pub open spec fn after_events(v: KbdView, evs: Seq<StepperEvent>) -> KbdView
    decreases evs.len(),
{
    if evs.len() == 0 {
        v
    } else {
        let prev = after_events(v, evs.drop_last());
        let e = evs.last();
        if e.key@ == KEYBOARD_SHOW@ {
            enable_spec(prev, e.value@ != "0"@)
        } else {
            prev
        }
    }
}

/// Calling `enable` with each value in turn.
pub open spec fn enable_all(v: KbdView, values: Seq<bool>) -> KbdView
    decreases values.len(),
{
    if values.len() == 0 {
        v
    } else {
        enable_spec(enable_all(v, values.drop_last()), values.last())
    }
}

/// A component whose extension is unavailable ignores every `enable` call and
/// every show / hide event: it stays unchanged, and so `Unavailable`.
pub proof fn lemma_unavailable_ignores_enable(v: KbdView, values: Seq<bool>, events: Seq<StepperEvent>)
    requires
        !v.ext_available,
    ensures
        enable_all(v, values) == v,
        after_events(v, events) == v,
        capability_of(enable_all(v, values)) == CapabilityState::Unavailable,
        capability_of(after_events(v, events)) == CapabilityState::Unavailable,
    decreases values.len() + events.len(),
{
    if values.len() > 0 {
        lemma_unavailable_ignores_enable(v, values.drop_last(), events);
    } else if events.len() > 0 {
        lemma_unavailable_ignores_enable(v, values, events.drop_last());
    }
}

/// Names of the native entry points the keyboard extension needs.
pub open spec fn required_function_names() -> Seq<Seq<char>> {
    seq![
        "xrGetSystemProperties"@,
        "xrCreateVirtualKeyboardMETA"@,
        "xrDestroyVirtualKeyboardMETA"@,
        "xrCreateVirtualKeyboardSpaceMETA"@,
        "xrSuggestVirtualKeyboardLocationMETA"@,
        "xrGetVirtualKeyboardScaleMETA"@,
        "xrSetVirtualKeyboardModelVisibilityMETA"@,
        "xrGetVirtualKeyboardModelAnimationStatesMETA"@,
        "xrGetVirtualKeyboardDirtyTexturesMETA"@,
        "xrGetVirtualKeyboardTextureDataMETA"@,
        "xrSendVirtualKeyboardInputMETA"@,
    ]
}

/// `initialize` under `id`: a component whose setup never started fails it
/// for want of the capability.
pub open spec fn initialize_spec(v: KbdView, id: Seq<char>) -> KbdView {
    if v.stage == SetupStage::NotStarted {
        KbdView {
            id,
            stage: SetupStage::Failed,
            failure: Some(StepperError::CapabilityUnavailable),
            ..v
        }
    } else {
        KbdView { id, ..v }
    }
}

/// `shutdown`: disabled, and a created keyboard moved out for destruction.
pub open spec fn release_spec(v: KbdView) -> KbdView {
    KbdView {
        enabled: false,
        keyboard: None,
        to_release: if v.keyboard is Some {
            v.keyboard
        } else {
            v.to_release
        },
        ..v
    }
}

/// Failing the setup: nothing becomes available, created objects stay held.
pub open spec fn failed(v: KbdView, why: StepperError) -> KbdView {
    KbdView { stage: SetupStage::Failed, failure: Some(why), ..v }
}

/// A component bound to the runtime's virtual keyboard extension. It becomes
/// available only when the extension, every entry point and every native
/// setup call succeed; it can then be enabled and disabled at will.
///
/// The host drives the one-time setup before adding the component: it calls
/// `begin_setup`, performs each native call the returned request names and
/// hands the result to the matching `on_*` method. `initialize` then reports
/// whether setup succeeded, and `shutdown` hands the created keyboard back
/// through `take_release` for destruction.
pub struct VirtualKbdMETA {
    id: StepperId,
    ext_available: bool,
    enabled: bool,
    enable_on_init: bool,
    stage: SetupStage,
    virtual_kbd: Option<VirtualKeyboardMETA>,
    kbd_space: Option<Space>,
    to_release: Option<VirtualKeyboardMETA>,
    failure: Option<StepperError>,
}

impl View for VirtualKbdMETA {
    type V = KbdView;

    closed spec fn view(&self) -> KbdView {
        KbdView {
            id: self.id@,
            ext_available: self.ext_available,
            enabled: self.enabled,
            enable_on_init: self.enable_on_init,
            stage: self.stage,
            keyboard: self.virtual_kbd,
            space: self.kbd_space,
            to_release: self.to_release,
            failure: self.failure,
        }
    }
}

impl VirtualKbdMETA {
    /// A component that enables itself once setup succeeds when `enabled` is true.
    pub fn new(enabled: bool) -> (r: Self)
        ensures
            r@.wf(),
            r@ == (KbdView {
                id: "VirtualKbdMETA"@,
                ext_available: false,
                enabled: false,
                enable_on_init: enabled,
                stage: SetupStage::NotStarted,
                keyboard: None,
                space: None,
                to_release: None,
                failure: None,
            }),
    {
        proof {
            reveal_strlit("VirtualKbdMETA");
        }
        VirtualKbdMETA {
            id: "VirtualKbdMETA".to_owned(),
            ext_available: false,
            enabled: false,
            enable_on_init: enabled,
            stage: SetupStage::NotStarted,
            virtual_kbd: None,
            kbd_space: None,
            to_release: None,
            failure: None,
        }
    }

    /// Flips between disabled and enabled; ignored while unavailable.
    pub fn enable(&mut self, value: bool)
        ensures
            old(self)@.wf() ==> final(self)@.wf(),
            final(self)@ == enable_spec(old(self)@, value),
            !old(self)@.ext_available ==> final(self)@ == old(self)@,
    {
        if self.ext_available && self.enabled != value {
            self.enabled = value;
        }
    }

    /// The id the component was initialized under.
    pub fn id(&self) -> (r: &StepperId)
        ensures
            r@ == self@.id,
    {
        &self.id
    }

    /// Where the component stands.
    pub fn capability(&self) -> (r: CapabilityState)
        ensures
            r == capability_of(self@),
    {
        if !self.ext_available {
            CapabilityState::Unavailable
        } else if self.enabled {
            CapabilityState::AvailableEnabled
        } else {
            CapabilityState::AvailableDisabled
        }
    }

    /// Why setup failed, if it did.
    pub fn failure(&self) -> (r: Option<StepperError>)
        ensures
            r == self@.failure,
    {
        self.failure
    }

    /// The stage the native setup is at.
    pub fn stage(&self) -> (r: SetupStage)
        ensures
            r == self@.stage,
    {
        self.stage
    }

    /// The space created for the keyboard, once setup got that far.
    pub fn keyboard_space(&self) -> (r: Option<Space>)
        ensures
            r == self@.space,
    {
        self.kbd_space
    }

    /// Starts the one-time setup from what the runtime reports: whether it is
    /// an OpenXR runtime, whether the extension is enabled, and the resolved
    /// entry points. Any of them missing makes the component unavailable for good.
    pub fn begin_setup(&mut self, is_openxr: bool, ext_enabled: bool, binding: &ExtensionBinding) -> (r:
        SetupRequest)
        requires
            old(self)@.stage == SetupStage::NotStarted,
        ensures
            old(self)@.wf() ==> final(self)@.wf(),
            is_openxr && ext_enabled && complete(binding@) ==> r is QuerySystemProperties
                && final(self)@ == (KbdView {
                stage: SetupStage::QuerySystemProperties,
                ..old(self)@
            }),
            !(is_openxr && ext_enabled && complete(binding@)) ==> r == SetupRequest::Finished(false)
                && final(self)@ == failed(old(self)@, StepperError::CapabilityUnavailable),
    {
        if is_openxr && ext_enabled && binding.all_present() {
            self.stage = SetupStage::QuerySystemProperties;
            SetupRequest::QuerySystemProperties
        } else {
            self.stage = SetupStage::Failed;
            self.failure = Some(StepperError::CapabilityUnavailable);
            SetupRequest::Finished(false)
        }
    }

    /// Takes the answer of the system-properties query: its result code and
    /// whether the runtime reports keyboard support.
    pub fn on_system_properties(&mut self, status: i32, supports_keyboard: bool) -> (r: SetupRequest)
        requires
            old(self)@.stage == SetupStage::QuerySystemProperties,
        ensures
            old(self)@.wf() ==> final(self)@.wf(),
            status == XR_SUCCESS && supports_keyboard ==> r is CreateKeyboard && final(self)@ == (
            KbdView { stage: SetupStage::CreateKeyboard, ..old(self)@ }),
            !(status == XR_SUCCESS && supports_keyboard) ==> r == SetupRequest::Finished(false)
                && final(self)@ == failed(old(self)@, StepperError::InitializationFailed),
    {
        if status == XR_SUCCESS && supports_keyboard {
            self.stage = SetupStage::CreateKeyboard;
            SetupRequest::CreateKeyboard
        } else {
            self.stage = SetupStage::Failed;
            self.failure = Some(StepperError::InitializationFailed);
            SetupRequest::Finished(false)
        }
    }

    /// Takes the result of creating the keyboard object. On success the
    /// keyboard is held, to be released by shutdown whatever follows.
    pub fn on_keyboard_created(&mut self, status: i32, keyboard: VirtualKeyboardMETA) -> (r:
        SetupRequest)
        requires
            old(self)@.stage == SetupStage::CreateKeyboard,
        ensures
            old(self)@.wf() ==> final(self)@.wf(),
            status == XR_SUCCESS ==> r == SetupRequest::CreateKeyboardSpace(keyboard)
                && final(self)@ == (KbdView {
                stage: SetupStage::CreateKeyboardSpace,
                keyboard: Some(keyboard),
                ..old(self)@
            }),
            status != XR_SUCCESS ==> r == SetupRequest::Finished(false) && final(self)@ == failed(
                old(self)@,
                StepperError::InitializationFailed,
            ),
    {
        if status == XR_SUCCESS {
            self.virtual_kbd = Some(keyboard);
            self.stage = SetupStage::CreateKeyboardSpace;
            SetupRequest::CreateKeyboardSpace(keyboard)
        } else {
            self.stage = SetupStage::Failed;
            self.failure = Some(StepperError::InitializationFailed);
            SetupRequest::Finished(false)
        }
    }

    /// Takes the result of creating the keyboard's space. On success the
    /// extension is available, and enabled if the component was built so.
    pub fn on_space_created(&mut self, status: i32, space: Space) -> (r: SetupRequest)
        requires
            old(self)@.stage == SetupStage::CreateKeyboardSpace,
        ensures
            old(self)@.wf() ==> final(self)@.wf(),
            status == XR_SUCCESS ==> r == SetupRequest::Finished(true) && final(self)@ == (KbdView {
                stage: SetupStage::Ready,
                space: Some(space),
                ext_available: true,
                enabled: old(self)@.enable_on_init,
                ..old(self)@
            }),
            status != XR_SUCCESS ==> r == SetupRequest::Finished(false) && final(self)@ == failed(
                old(self)@,
                StepperError::InitializationFailed,
            ),
    {
        if status == XR_SUCCESS {
            self.kbd_space = Some(space);
            self.stage = SetupStage::Ready;
            self.ext_available = true;
            self.enabled = false;
            let on = self.enable_on_init;
            self.enable(on);
            SetupRequest::Finished(true)
        } else {
            self.stage = SetupStage::Failed;
            self.failure = Some(StepperError::InitializationFailed);
            SetupRequest::Finished(false)
        }
    }

    /// Applies the show / hide events of a frame in order.
    pub fn apply_events(&mut self, events: &Vec<StepperEvent>)
        ensures
            old(self)@.wf() ==> final(self)@.wf(),
            final(self)@ == after_events(old(self)@, events@),
    {
        let show = KEYBOARD_SHOW.to_owned();
        let hide = "0".to_owned();
        proof {
            reveal_strlit("0");
        }
        let mut i: usize = 0;
        while i < events.len()
            invariant
                i <= events@.len(),
                show@ == KEYBOARD_SHOW@,
                hide@ == "0"@,
                old(self)@.wf() ==> self@.wf(),
                self@ == after_events(old(self)@, events@.take(i as int)),
            decreases events.len() - i,
        {
            proof {
                assert(events@.take(i + 1).drop_last() =~= events@.take(i as int));
            }
            if events[i].key == show {
                let on = events[i].value != hide;
                self.enable(on);
            }
            i = i + 1;
        }
        proof {
            assert(events@.take(i as int) =~= events@);
        }
    }

    /// Disables the component and, if a keyboard was ever created, hands it
    /// over once for destruction (see `take_release`). A second call does nothing more.
    pub fn release(&mut self)
        ensures
            final(self)@.wf(),
            final(self)@ == release_spec(old(self)@),
    {
        self.enabled = false;
        if self.virtual_kbd.is_some() {
            self.to_release = self.virtual_kbd;
            self.virtual_kbd = None;
        }
    }

    /// The keyboard that is due for destruction, if any; it is handed out once.
    pub fn take_release(&mut self) -> (r: Option<VirtualKeyboardMETA>)
        ensures
            old(self)@.wf() ==> final(self)@.wf(),
            r == old(self)@.to_release,
            final(self)@ == (KbdView { to_release: None, ..old(self)@ }),
    {
        let r = self.to_release;
        self.to_release = None;
        r
    }

    /// The entry points the keyboard extension needs, all of which must resolve.
    pub fn required_functions() -> (r: Vec<String>)
        ensures
            r@.map_values(|s: String| s@) == required_function_names(),
    {
        let mut r: Vec<String> = Vec::new();
        r.push("xrGetSystemProperties".to_owned());
        r.push("xrCreateVirtualKeyboardMETA".to_owned());
        r.push("xrDestroyVirtualKeyboardMETA".to_owned());
        r.push("xrCreateVirtualKeyboardSpaceMETA".to_owned());
        r.push("xrSuggestVirtualKeyboardLocationMETA".to_owned());
        r.push("xrGetVirtualKeyboardScaleMETA".to_owned());
        r.push("xrSetVirtualKeyboardModelVisibilityMETA".to_owned());
        r.push("xrGetVirtualKeyboardModelAnimationStatesMETA".to_owned());
        r.push("xrGetVirtualKeyboardDirtyTexturesMETA".to_owned());
        r.push("xrGetVirtualKeyboardTextureDataMETA".to_owned());
        r.push("xrSendVirtualKeyboardInputMETA".to_owned());
        assert(r@.map_values(|s: String| s@) =~= required_function_names());
        r
    }
}

impl Default for VirtualKbdMETA {
    fn default() -> (r: Self)
        ensures
            r@.wf(),
            r@ == (KbdView {
                id: "VirtualKbdMETA"@,
                ext_available: false,
                enabled: false,
                enable_on_init: false,
                stage: SetupStage::NotStarted,
                keyboard: None,
                space: None,
                to_release: None,
                failure: None,
            }),
    {
        VirtualKbdMETA::new(false)
    }
}

impl Stepper for VirtualKbdMETA {
    open spec fn init_ok(&self, id: Seq<char>) -> bool {
        self@.ext_available
    }

    open spec fn initialized(before: Self, id: Seq<char>, after: Self) -> bool {
        after@ == initialize_spec(before@, id)
    }

    open spec fn stepped(before: Self, events: Seq<StepperEvent>, after: Self) -> bool {
        after@ == after_events(before@, events)
    }

    open spec fn shut_down(before: Self, after: Self) -> bool {
        after@ == release_spec(before@)
    }

    /// Available only when the native setup finished successfully. A
    /// component whose setup never started records why it is unavailable.
    fn initialize(&mut self, id: &String) -> (r: bool)
        ensures
            old(self)@.wf() ==> final(self)@.wf(),
    {
        self.id = id.clone();
        if self.stage == SetupStage::NotStarted {
            self.stage = SetupStage::Failed;
            self.failure = Some(StepperError::CapabilityUnavailable);
        }
        self.ext_available
    }

    fn enabled(&self) -> (r: bool)
        ensures
            r == self@.enabled,
    {
        self.enabled
    }

    /// Show / hide events switch the component; it has no per-frame native work.
    fn step(&mut self, events: &Vec<StepperEvent>)
        ensures
            old(self)@.wf() ==> final(self)@.wf(),
    {
        self.apply_events(events);
    }

    fn shutdown(&mut self)
        ensures
            final(self)@.wf(),
    {
        self.release();
    }
}

} // verus!
