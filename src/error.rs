use vstd::prelude::*;

verus! {

/// Every way in which listing displays or capturing one can fail.
#[derive(Clone, Copy, Debug, PartialEq, Eq, Structural)]
pub enum CaptureError {
    /// The operating system could not be asked for its displays.
    DisplayQueryFailed,
    /// The operating system reported no display at all.
    NoDisplaysFound,
    /// No display carries the requested id.
    MonitorNotFound,
    /// The scale factor is not a number in `[1, 5]`.
    InvalidScaleFactor,
    /// The scaled size is zero in some direction, or too large for a buffer.
    DegenerateTargetSize,
    /// The framebuffer of the chosen display could not be read.
    CaptureFailed,
    /// The scaled image could not be encoded or written.
    SaveFailed,
}

} // verus!
