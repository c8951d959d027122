//! Remote-input event types and permission queries.

use vstd::prelude::*;

verus! {

/// Why input control failed.
#[derive(Debug)]
pub enum InputError {
    SimulationError(String),
    PermissionDenied,
    InitError(String),
}

/// A mouse button.
#[derive(Debug, Clone, Copy, PartialEq, Eq, Structural)]
pub enum MouseButton {
    Left,
    Right,
    Middle,
    Back,
    Forward,
}

/// The button with wire number `v`; unknown numbers mean the left button.
pub open spec fn mouse_button_of(v: u32) -> MouseButton {
    if v == 1 {
        MouseButton::Right
    } else if v == 2 {
        MouseButton::Middle
    } else if v == 3 {
        MouseButton::Back
    } else if v == 4 {
        MouseButton::Forward
    } else {
        MouseButton::Left
    }
}

impl From<u32> for MouseButton {
    fn from(value: u32) -> (r: MouseButton) {
        if value == 1 {
            MouseButton::Right
        } else if value == 2 {
            MouseButton::Middle
        } else if value == 3 {
            MouseButton::Back
        } else if value == 4 {
            MouseButton::Forward
        } else {
            MouseButton::Left
        }
    }
}

impl vstd::std_specs::convert::FromSpecImpl<u32> for MouseButton {
    open spec fn obeys_from_spec() -> bool {
        true
    }

    open spec fn from_spec(v: u32) -> MouseButton {
        mouse_button_of(v)
    }
}

/// Keyboard modifier keys held.
#[derive(Debug, Clone, Copy, PartialEq, Eq, Structural)]
pub struct Modifiers {
    pub shift: bool,
    pub ctrl: bool,
    pub alt: bool,
    /// Command on macOS, Windows key elsewhere.
    pub meta: bool,
}

impl Modifiers {
    /// No modifier held.
    pub fn new() -> (r: Self)
        ensures
            r == (Modifiers { shift: false, ctrl: false, alt: false, meta: false }),
    {
        Modifiers { shift: false, ctrl: false, alt: false, meta: false }
    }

    /// The same modifiers with shift held.
    pub fn with_shift(self) -> (r: Self)
        ensures
            r == (Modifiers { shift: true, ..self }),
    {
        Modifiers { shift: true, ..self }
    }

    /// The same modifiers with control held.
    pub fn with_ctrl(self) -> (r: Self)
        ensures
            r == (Modifiers { ctrl: true, ..self }),
    {
        Modifiers { ctrl: true, ..self }
    }

    /// The same modifiers with alt held.
    pub fn with_alt(self) -> (r: Self)
        ensures
            r == (Modifiers { alt: true, ..self }),
    {
        Modifiers { alt: true, ..self }
    }

    /// The same modifiers with meta held.
    pub fn with_meta(self) -> (r: Self)
        ensures
            r == (Modifiers { meta: true, ..self }),
    {
        Modifiers { meta: true, ..self }
    }
}

/// State of a remote-control permission.
#[derive(Debug, Clone, Copy, PartialEq, Eq, Structural)]
pub enum ControlState {
    NotRequested,
    Requested,
    Granted,
    Denied,
}

/// A request to control a peer's input.
#[derive(Debug)]
pub struct ControlRequest {
    pub from_device_id: String,
    pub from_device_name: String,
}

/// The answer to a control request.
#[derive(Debug)]
pub struct ControlResponse {
    pub granted: bool,
    pub reason: Option<String>,
}

/// Whether input control is permitted; only macOS asks the user, and this
/// build has no such check.
pub fn has_permission() -> (r: bool)
    ensures
        r,
{
    true
}

/// Requests input-control permission; granted where no prompt exists.
pub fn request_permission() -> (r: bool)
    ensures
        r,
{
    true
}

} // verus!
