//! Stepper lifecycle framework: an action queue drained once per frame, a
//! registry of steppers with a deterministic initialize / step / shutdown
//! protocol, and capability-gated components that bind optional native
//! extensions.
pub mod action;
pub mod stepper;
pub mod registry;
pub mod scheduler;
pub mod binder;
pub mod xr;
pub mod virtual_kbd;
pub mod lifecycle;

pub use action::{ActionQueue, StepperAction, StepperEvent, StepperId};
pub use stepper::{CallKind, LifecycleCall, RegistryView, Stepper, StepperError};
pub use registry::StepperRegistry;
pub use scheduler::{FramePlan, FrameReport, FrameScheduler, partition};
pub use binder::{EntryPoint, ExtensionBinding};
pub use xr::XR_SUCCESS;
pub use virtual_kbd::{
    CapabilityState, SetupRequest, SetupStage, VirtualKbdMETA, KEYBOARD_SHOW,
    VIRTUAL_KEYBOARD_EXTENSION,
};
