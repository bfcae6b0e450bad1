//! How a vertex buffer is laid out for the sprite pipeline.
//!
//! The offsets and shader locations written here are one half of a contract
//! whose other half is the vertex shader, so they are stated exactly.

use vstd::prelude::*;

verus! {

/// Whether a buffer advances once per vertex or once per instance.
#[derive(Clone, Copy, Debug, PartialEq, Eq)]
pub enum VertexStepMode {
    Vertex,
    Instance,
}

/// The type of one vertex attribute.
#[derive(Clone, Copy, Debug, PartialEq, Eq)]
pub enum VertexFormat {
    /// Two 32-bit floats.
    Float32x2,
    /// Four 32-bit floats.
    Float32x4,
}

impl VertexFormat {
    /// The number of bytes an attribute of this format occupies.
    pub open spec fn spec_size(self) -> nat {
        match self {
            VertexFormat::Float32x2 => 8,
            VertexFormat::Float32x4 => 16,
        }
    }

    /// The number of bytes an attribute of this format occupies.
    pub fn size(self) -> (bytes: u64)
        ensures
            bytes == self.spec_size(),
    {
        match self {
            VertexFormat::Float32x2 => 8,
            VertexFormat::Float32x4 => 16,
        }
    }
}

/// One input of the vertex shader: where it lies in a buffer element and at
/// which location the shader reads it.
#[derive(Clone, Copy, Debug, PartialEq, Eq)]
pub struct VertexAttribute {
    pub format: VertexFormat,
    pub offset: u64,
    pub shader_location: u32,
}

impl VertexAttribute {
    /// The offset of the first byte after this attribute.
    pub open spec fn end(self) -> nat {
        self.offset as nat + self.format.spec_size()
    }
}

/// The layout of one vertex buffer: the distance between elements, how the
/// buffer is stepped, and the attributes inside an element.
#[derive(Debug, PartialEq, Eq)]
pub struct VertexBufferLayout {
    pub array_stride: u64,
    pub step_mode: VertexStepMode,
    pub attributes: Vec<VertexAttribute>,
}

impl VertexBufferLayout {
    /// The attributes lie end to end, the first at offset zero and the last
    /// ending at the stride, so that every byte of an element belongs to
    /// exactly one attribute.
    pub open spec fn tiles(&self) -> bool {
        let attributes = self.attributes@;
        &&& attributes.len() > 0
        &&& attributes[0].offset == 0
        &&& forall|i: int|
            0 <= i < attributes.len() - 1 ==> attributes[i + 1].offset == (
            #[trigger] attributes[i]).end()
        &&& attributes.last().end() == self.array_stride
    }

    /// The shader locations count up by one from `first`.
    pub open spec fn locations_from(&self, first: nat) -> bool {
        forall|i: int|
            0 <= i < self.attributes@.len() ==> (#[trigger] self.attributes@[i]).shader_location
                == first + i
    }
}

} // verus!
