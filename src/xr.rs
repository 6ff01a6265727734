use vstd::prelude::*;

verus! {

/// openxr_sys::VirtualKeyboardMETA: the runtime's handle of a virtual
/// keyboard, carried through unread.
#[verifier::external_type_specification]
#[verifier::external_body]
pub struct ExVirtualKeyboardMETA(openxr_sys::VirtualKeyboardMETA);

/// openxr_sys::Space: the runtime's handle of a coordinate space, carried
/// through unread.
#[verifier::external_type_specification]
#[verifier::external_body]
pub struct ExSpace(openxr_sys::Space);

/// The raw value of `XR_SUCCESS`, the only result code a setup call may
/// return for the setup to go on.
pub const XR_SUCCESS: i32 = 0;

} // verus!
