//! Captured-frame types.

use vstd::prelude::*;

verus! {

/// Why capture failed.
#[derive(Debug)]
pub enum CaptureError {
    InitError(String),
    PermissionDenied,
    DisplayNotFound(u32),
    CaptureError(String),
    NotCapturing,
}

/// Pixel layout of a captured frame.
#[derive(Debug, Clone, Copy, PartialEq, Eq, Structural)]
pub enum FrameFormat {
    Bgra,
    Rgba,
    Nv12,
}

/// One captured frame.
#[derive(Debug)]
pub struct CapturedFrame {
    pub width: u32,
    pub height: u32,
    pub timestamp: u64,
    pub data: Vec<u8>,
    pub format: FrameFormat,
}

/// Whether capture runs, and on which display. Starting while capturing
/// first stops; starting again after a stop is allowed.
pub struct CaptureControl {
    capturing: bool,
    current_display: Option<u32>,
}

impl CaptureControl {
    /// Not capturing.
    pub fn new() -> (r: Self)
        ensures
            !r.is_capturing_spec(),
            r.display() is None,
    {
        CaptureControl { capturing: false, current_display: None }
    }

    pub closed spec fn is_capturing_spec(&self) -> bool {
        self.capturing
    }

    pub closed spec fn display(&self) -> Option<u32> {
        self.current_display
    }

    /// Whether capture runs.
    pub fn is_capturing(&self) -> (r: bool)
        ensures
            r == self.is_capturing_spec(),
    {
        self.capturing
    }

    /// Starts capturing `display_id`, stopping any capture first; returns
    /// whether a running capture had to be stopped.
    pub fn start(&mut self, display_id: u32) -> (stopped_first: bool)
        ensures
            stopped_first == old(self).is_capturing_spec(),
            final(self).is_capturing_spec(),
            final(self).display() == Some(display_id),
    {
        let stopped_first = self.capturing;
        self.stop();
        self.capturing = true;
        self.current_display = Some(display_id);
        stopped_first
    }

    /// Stops capturing.
    pub fn stop(&mut self)
        ensures
            !final(self).is_capturing_spec(),
            final(self).display() is None,
    {
        self.capturing = false;
        self.current_display = None;
    }

    /// Whether a frame may be captured now: not before `start`.
    pub fn check_capture(&self) -> (r: Result<u32, CaptureError>)
        ensures
            r is Ok <==> (self.is_capturing_spec() && self.display() is Some),
            r matches Ok(d) ==> self.display() == Some(d),
            !self.is_capturing_spec() ==> (r matches Err(CaptureError::NotCapturing)),
    {
        if !self.capturing {
            return Err(CaptureError::NotCapturing);
        }
        match self.current_display {
            Some(d) => Ok(d),
            None => Err(CaptureError::NotCapturing),
        }
    }
}

} // verus!
