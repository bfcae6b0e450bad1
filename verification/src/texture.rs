//! What the draw core knows of a texture.

use vstd::prelude::*;

verus! {

/// A texture that sprites can be drawn with. The pixels live on the GPU; kept
/// here are the identity under which its sprites are batched, the handle of
/// the bind group that binds it with its sampler, and its size.
#[derive(Debug, PartialEq, Eq)]
pub struct Texture {
    /// The identity of the texture: the path it was loaded from.
    pub path: String,
    /// The handle of the texture's bind group.
    pub binding: u64,
    /// Width and height in pixels.
    pub size: [u32; 2],
}

/// A [`Texture`] with its path as a sequence.
pub struct TextureView {
    pub path: Seq<char>,
    pub binding: u64,
    pub size: [u32; 2],
}

impl View for Texture {
    type V = TextureView;

    open spec fn view(&self) -> TextureView {
        TextureView { path: self.path@, binding: self.binding, size: self.size }
    }
}

impl Clone for Texture {
    fn clone(&self) -> (copy: Texture)
        ensures
            copy@ == self@,
    {
        Texture { path: self.path.clone(), binding: self.binding, size: self.size }
    }
}

} // verus!
