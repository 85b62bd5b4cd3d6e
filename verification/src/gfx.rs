//! Points drawn by the electron beam, and the policy for presentation
//! errors reported by the surface.

use vstd::prelude::*;

verus! {

/// A condition reported by the presented surface.
#[derive(Debug, Clone, Copy, PartialEq, Eq, Structural)]
pub enum SurfaceIssue {
    /// The surface no longer matches the window and must be reconfigured.
    Outdated,
    /// The surface was lost.
    Lost,
    /// The surface could not allocate memory.
    OutOfMemory,
    /// Any other transient condition.
    Transient,
}

/// What the renderer does about a surface condition.
#[derive(Debug, Clone, Copy, PartialEq, Eq, Structural)]
pub enum SurfaceAction {
    /// Reconfigure the surface and retry next frame.
    Reconfigure,
    /// Escalate: the condition is unrecoverable.
    Fatal,
    /// Skip this frame; nothing to mend.
    Skip,
}

/// The policy for presentation errors: losing the surface triggers a
/// reconfigure-and-retry, running out of memory is fatal, anything else
/// skips the frame.
pub fn surface_error_action(issue: SurfaceIssue) -> (r: SurfaceAction)
    ensures
        r == match issue {
            SurfaceIssue::Outdated => SurfaceAction::Reconfigure,
            SurfaceIssue::Lost => SurfaceAction::Reconfigure,
            SurfaceIssue::OutOfMemory => SurfaceAction::Fatal,
            SurfaceIssue::Transient => SurfaceAction::Skip,
        },
{
    match issue {
        SurfaceIssue::Outdated | SurfaceIssue::Lost => SurfaceAction::Reconfigure,
        SurfaceIssue::OutOfMemory => SurfaceAction::Fatal,
        SurfaceIssue::Transient => SurfaceAction::Skip,
    }
}

/// A point drawn by the electron beam: a screen position and the beam's
/// power at the moment it moved there (1 lit, 0 unlit).
#[derive(Debug, Clone, Copy, PartialEq, Eq, Structural)]
pub struct Point {
    pub x: u16,
    pub y: u16,
    pub power: u32,
}

impl Point {
    /// Create a new point.
    pub fn new(x: u16, y: u16, power: bool) -> (r: Self)
        ensures
            r == (Point { x, y, power: if power { 1u32 } else { 0u32 } }),
    {
        Self { x, y, power: if power { 1 } else { 0 } }
    }

    /// Encode the position into a `u32`: x in the high 16 bits, y in the
    /// low 16 bits.
    pub fn encode(&self) -> (r: u32)
        ensures
            r == self.x * 0x10000 + self.y,
    {
        (self.x as u32) * 0x10000 + (self.y as u32)
    }

    /// The position packed in a `MoveTo` payload, with the power unset.
    pub fn from_data(data: u32) -> (r: Self)
        ensures
            r == (Point { x: (data / 0x10000) as u16, y: (data % 0x10000) as u16, power: 0u32 }),
    {
        let x = (data / 0x10000) as u16;
        let y = (data % 0x10000) as u16;
        Self { x, y, power: 0 }
    }
}

} // verus!
