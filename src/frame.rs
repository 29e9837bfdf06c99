//! What to do when the next presentable image cannot be acquired.
use vstd::prelude::*;

verus! {

/// Why acquiring the next image of the surface failed.
#[derive(Clone, Copy, PartialEq, Eq, Debug)]
pub enum AcquireFailure {
    /// The surface was lost.
    Lost,
    /// The surface no longer matches its configuration.
    Outdated,
    /// The device ran out of memory.
    OutOfMemory,
    /// No image became available in time.
    Timeout,
}

/// The response to a failed acquisition.
#[derive(Clone, Copy, PartialEq, Eq, Debug)]
pub enum FrameAction {
    /// Configure the surface again for the current viewport and skip the
    /// frame.
    Reconfigure,
    /// Stop the viewer: the surface cannot be recovered.
    Exit,
    /// Report the failure and skip the frame.
    Skip,
}

/// A lost or invalid surface is configured again, memory exhaustion is
/// fatal, anything else skips the frame.
pub fn on_acquire_failure(failure: AcquireFailure) -> (r: FrameAction)
    ensures
        r == (match failure {
            AcquireFailure::Lost | AcquireFailure::Outdated => FrameAction::Reconfigure,
            AcquireFailure::OutOfMemory => FrameAction::Exit,
            AcquireFailure::Timeout => FrameAction::Skip,
        }),
{
    match failure {
        AcquireFailure::Lost | AcquireFailure::Outdated => FrameAction::Reconfigure,
        AcquireFailure::OutOfMemory => FrameAction::Exit,
        AcquireFailure::Timeout => FrameAction::Skip,
    }
}

} // verus!
