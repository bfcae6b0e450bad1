//! The camera a sprite is drawn through.
//!
//! A camera is carried with each instance and turned into a view-projection
//! matrix only when the instance is packed, so the library holds its
//! parameters as binary32 bit patterns. It decides which extent and which
//! zoom the matrix is built from; the matrix itself is not its business.

use vstd::prelude::*;
use crate::color::{ONE, ZERO};

verus! {

/// The smallest zoom a camera is given: the bit pattern of `1e-8`.
pub const MIN_ZOOM: u32 = 0x322B_CC77;

/// The sign bit of a binary32 pattern.
pub const SIGN: u32 = 0x8000_0000;

/// The bit pattern of positive infinity. A pattern without sign bit is a
/// number exactly if it is no larger than this.
pub const INFINITY: u32 = 0x7F80_0000;

/// Position, extent, rotation and zoom of a 2D camera.
#[derive(Clone, Copy, Debug, PartialEq, Eq)]
pub struct Camera {
    /// The visible extent in world units. `None` means the size of the
    /// surface at the moment the instance is packed.
    pub size: Option<[u32; 2]>,
    /// The world-space point at the centre of the view.
    pub position: [u32; 2],
    /// Rotation about the view axis, in radians.
    pub rotation: u32,
    /// Zoom factor; a larger zoom shows a smaller part of the world.
    pub zoom: u32,
}

impl Camera {
    /// The camera used when none has been set: centred on the origin,
    /// unrotated, zoom `1.0`, as large as the surface.
    pub open spec fn spec_new() -> Camera {
        Camera { size: None, position: [ZERO, ZERO], rotation: ZERO, zoom: ONE }
    }

    /// The extent the view is built for: the camera's own if it has one, or
    /// else `viewport`.
    pub open spec fn spec_extent(&self, viewport: [u32; 2]) -> [u32; 2] {
        match self.size {
            Some(size) => size,
            None => viewport,
        }
    }

    /// Whether the zoom is used as it is: it is a number or infinity, it is
    /// positive, and it is not below [`MIN_ZOOM`]. Among patterns without sign
    /// bit a larger pattern is a larger number, so patterns are compared.
    pub open spec fn zoom_in_range(&self) -> bool {
        self.zoom & SIGN == 0 && MIN_ZOOM <= self.zoom <= INFINITY
    }

    /// The zoom the view is built with: the camera's own where that is in
    /// range, and [`MIN_ZOOM`] in place of a zoom that is negative, zero, too
    /// small or not a number.
    pub open spec fn spec_clamped_zoom(&self) -> u32 {
        if self.zoom_in_range() {
            self.zoom
        } else {
            MIN_ZOOM
        }
    }

    /// The default camera.
    #[verifier::when_used_as_spec(spec_new)]
    pub fn new() -> (camera: Camera)
        ensures
            camera == Self::spec_new(),
    {
        Camera { size: None, position: [ZERO, ZERO], rotation: ZERO, zoom: ONE }
    }

    /// The extent the view is built for, given the size of the surface.
    #[verifier::when_used_as_spec(spec_extent)]
    pub fn extent(&self, viewport: [u32; 2]) -> (extent: [u32; 2])
        ensures
            extent == self.spec_extent(viewport),
    {
        match self.size {
            Some(size) => size,
            None => viewport,
        }
    }

    /// The zoom the view is built with. It is never zero, so the visible
    /// extent, which is the extent divided by the zoom, is always defined.
    #[verifier::when_used_as_spec(spec_clamped_zoom)]
    pub fn clamped_zoom(&self) -> (zoom: u32)
        ensures
            zoom == self.spec_clamped_zoom(),
    {
        if self.zoom & SIGN == 0 && MIN_ZOOM <= self.zoom && self.zoom <= INFINITY {
            self.zoom
        } else {
            MIN_ZOOM
        }
    }
}

/// The clamped zoom is a positive number or infinity and at least
/// [`MIN_ZOOM`], and clamping it again changes nothing.
pub proof fn lemma_clamped_zoom_in_range(camera: Camera)
    ensures
        (Camera { zoom: camera.spec_clamped_zoom(), ..camera }).zoom_in_range(),
        (Camera { zoom: camera.spec_clamped_zoom(), ..camera }).spec_clamped_zoom()
            == camera.spec_clamped_zoom(),
        camera.spec_clamped_zoom() != ZERO,
{
    assert(MIN_ZOOM & SIGN == 0) by (bit_vector);
}

} // verus!
