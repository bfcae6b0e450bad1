//! The size of the presentation surface and the rules for keeping it usable.

use vstd::prelude::*;

verus! {

/// Width and height of the presentation surface, in physical pixels.
#[derive(Clone, Copy, Debug, PartialEq, Eq, Structural)]
pub struct SurfaceExtent {
    pub width: u32,
    pub height: u32,
}

impl SurfaceExtent {
    /// An extent can back a surface only when neither side is zero.
    pub open spec fn presentable(size: [u32; 2]) -> bool {
        size[0] != 0 && size[1] != 0
    }

    /// Takes a resize notification. A size with a zero side is ignored; any
    /// other size replaces the current one. Returns whether the surface and
    /// its render target have to be rebuilt for the new extent.
    pub fn resize(&mut self, size: [u32; 2]) -> (rebuilt: bool)
        ensures
            rebuilt == Self::presentable(size),
            rebuilt ==> final(self).width == size[0] && final(self).height == size[1],
            !rebuilt ==> *final(self) == *old(self),
    {
        if size[0] == 0 || size[1] == 0 {
            return false;
        }
        self.width = size[0];
        self.height = size[1];
        true
    }
}

/// Why a frame could not be presented.
#[derive(Clone, Copy, Debug, PartialEq, Eq)]
pub enum SurfaceError {
    /// No frame became available in time.
    Timeout,
    /// The surface no longer matches the window, as after a resize.
    Outdated,
    /// The surface was lost and has to be made anew.
    Lost,
    /// The GPU has no memory left.
    OutOfMemory,
    /// Any other failure of the device.
    Other,
}

/// What the frame loop does after a frame that could not be presented.
#[derive(Clone, Copy, Debug, PartialEq, Eq)]
pub enum Recovery {
    /// Rebuild the surface for its present extent; the frame is skipped.
    Reconfigure,
    /// Carry on; the next frame is tried as usual.
    Continue,
    /// Stop the frame loop.
    Exit,
}

impl SurfaceError {
    /// A stale or lost surface is rebuilt, a timeout is passed over, and
    /// anything else ends the frame loop.
    pub open spec fn spec_recovery(self) -> Recovery {
        match self {
            SurfaceError::Lost | SurfaceError::Outdated => Recovery::Reconfigure,
            SurfaceError::Timeout => Recovery::Continue,
            SurfaceError::OutOfMemory | SurfaceError::Other => Recovery::Exit,
        }
    }

    /// What the frame loop does after this error.
    #[verifier::when_used_as_spec(spec_recovery)]
    pub fn recovery(self) -> (recovery: Recovery)
        ensures
            recovery == self.spec_recovery(),
    {
        match self {
            SurfaceError::Lost | SurfaceError::Outdated => Recovery::Reconfigure,
            SurfaceError::Timeout => Recovery::Continue,
            SurfaceError::OutOfMemory | SurfaceError::Other => Recovery::Exit,
        }
    }
}

} // verus!
