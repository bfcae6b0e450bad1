//! The unit quad that every sprite is an instance of.

use vstd::prelude::*;
use crate::color::{ONE, ZERO};
use crate::command::{Command, CommandView};
use crate::layout::{VertexAttribute, VertexBufferLayout, VertexFormat, VertexStepMode};
use crate::words::{cast_words, is_image_of};

verus! {

/// The bit pattern of `0.5`.
pub const HALF: u32 = 0x3F00_0000;

/// The bit pattern of `-0.5`.
pub const MINUS_HALF: u32 = 0xBF00_0000;

/// The vertex buffer slot of the quad's vertices.
pub const VERTEX_SLOT: u32 = 0;

/// Number of bytes in a vertex.
pub const VERTEX_BYTES: u64 = 16;

/// A corner of the quad: its position and its texture coordinates, as
/// binary32 bit patterns.
#[derive(Clone, Copy, Debug, PartialEq, Eq)]
pub struct Vertex {
    pub position: [u32; 2],
    pub tex_coords: [u32; 2],
}

impl Vertex {
    /// A vertex at `position` that samples the texture at `tex_coords`.
    pub fn new(position: [u32; 2], tex_coords: [u32; 2]) -> (vertex: Vertex)
        ensures
            vertex == (Vertex { position, tex_coords }),
    {
        Vertex { position, tex_coords }
    }

    /// The four words of the vertex in memory order: position, then texture
    /// coordinates.
    pub open spec fn words(self) -> Seq<u32> {
        seq![self.position[0], self.position[1], self.tex_coords[0], self.tex_coords[1]]
    }

    /// The attributes of the vertex stream: position at location 0, texture
    /// coordinates at location 1, two floats each.
    pub open spec fn spec_attributes() -> Seq<VertexAttribute> {
        seq![
            VertexAttribute { format: VertexFormat::Float32x2, offset: 0, shader_location: 0 },
            VertexAttribute { format: VertexFormat::Float32x2, offset: 8, shader_location: 1 },
        ]
    }

    /// The layout of a buffer of vertices.
    pub fn buffer_layout() -> (layout: VertexBufferLayout)
        ensures
            layout.array_stride == VERTEX_BYTES,
            layout.step_mode == VertexStepMode::Vertex,
            layout.attributes@ == Self::spec_attributes(),
            layout.tiles(),
            layout.locations_from(0),
    {
        let mut attributes: Vec<VertexAttribute> = Vec::new();
        attributes.push(
            VertexAttribute { format: VertexFormat::Float32x2, offset: 0, shader_location: 0 },
        );
        attributes.push(
            VertexAttribute { format: VertexFormat::Float32x2, offset: 8, shader_location: 1 },
        );
        VertexBufferLayout {
            array_stride: VERTEX_BYTES,
            step_mode: VertexStepMode::Vertex,
            attributes,
        }
    }
}

/// The mesh shared by all sprites: a square of side one centred on the
/// origin, drawn as two triangles.
pub struct Quad;

impl Quad {
    /// The number of indices in the mesh.
    pub const NUM_INDICES: u32 = 6;

    /// The four corners, counter-clockwise from the one at `(-0.5, -0.5)`.
    /// Texture coordinates run from `(0, 0)` there to `(1, 1)` at the
    /// opposite corner.
    pub open spec fn spec_vertices() -> Seq<Vertex> {
        seq![
            Vertex { position: [MINUS_HALF, MINUS_HALF], tex_coords: [ZERO, ZERO] },
            Vertex { position: [HALF, MINUS_HALF], tex_coords: [ONE, ZERO] },
            Vertex { position: [HALF, HALF], tex_coords: [ONE, ONE] },
            Vertex { position: [MINUS_HALF, HALF], tex_coords: [ZERO, ONE] },
        ]
    }

    /// The two triangles, as indices into the corners.
    pub open spec fn spec_indices() -> Seq<u16> {
        seq![2u16, 0u16, 3u16, 2u16, 1u16, 0u16]
    }

    /// The sixteen words of the vertex buffer.
    pub open spec fn vertex_words() -> Seq<u32> {
        Seq::new(16, |i: int| Self::spec_vertices()[i / 4].words()[i % 4])
    }

    /// The commands that bind the mesh.
    pub open spec fn spec_apply() -> Seq<CommandView> {
        seq![CommandView::SetQuadVertices { slot: VERTEX_SLOT }, CommandView::SetQuadIndices]
    }

    /// The corners of the quad.
    pub fn vertices() -> (vertices: [Vertex; 4])
        ensures
            vertices@ == Self::spec_vertices(),
    {
        [
            Vertex::new([MINUS_HALF, MINUS_HALF], [ZERO, ZERO]),
            Vertex::new([HALF, MINUS_HALF], [ONE, ZERO]),
            Vertex::new([HALF, HALF], [ONE, ONE]),
            Vertex::new([MINUS_HALF, HALF], [ZERO, ONE]),
        ]
    }

    /// The indices of the quad's two triangles.
    pub fn indices() -> (indices: [u16; 6])
        ensures
            indices@ == Self::spec_indices(),
    {
        [2, 0, 3, 2, 1, 0]
    }

    /// The contents of the vertex buffer.
    pub fn vertex_bytes() -> (bytes: Vec<u8>)
        ensures
            is_image_of(bytes@, Self::vertex_words()),
            bytes@.len() == 4 * VERTEX_BYTES,
    {
        let vertices = Self::vertices();
        let mut words: Vec<u32> = Vec::new();
        let mut i: usize = 0;
        while i < 4
            invariant
                i <= 4,
                vertices@ == Self::spec_vertices(),
                words@ == Self::vertex_words().take(4 * i as int),
            decreases 4 - i,
        {
            let vertex = vertices[i];
            words.push(vertex.position[0]);
            words.push(vertex.position[1]);
            words.push(vertex.tex_coords[0]);
            words.push(vertex.tex_coords[1]);
            i += 1;
        }
        assert(words@ == Self::vertex_words());
        cast_words(words.as_slice())
    }

    /// Binds the mesh: its vertices at slot [`VERTEX_SLOT`], then its
    /// indices.
    pub fn apply(commands: &mut Vec<Command>)
        ensures
            final(commands).deep_view() == old(commands).deep_view() + Self::spec_apply(),
    {
        commands.push(Command::SetQuadVertices { slot: VERTEX_SLOT });
        commands.push(Command::SetQuadIndices);
    }
}

/// Whether some index of the mesh names corner `v`.
pub open spec fn corner_used(v: int) -> bool {
    exists|i: int| 0 <= i < Quad::spec_indices().len() && #[trigger] Quad::spec_indices()[i] == v
}

/// There are [`Quad::NUM_INDICES`] indices, every index names one of the four
/// corners, and every corner is named by some index.
pub proof fn lemma_quad_is_closed()
    ensures
        Quad::spec_indices().len() == Quad::NUM_INDICES,
        forall|i: int|
            0 <= i < Quad::spec_indices().len() ==> (#[trigger] Quad::spec_indices()[i])
                < Quad::spec_vertices().len(),
        forall|v: int| 0 <= v < Quad::spec_vertices().len() ==> #[trigger] corner_used(v),
{
    let indices = Quad::spec_indices();
    assert(indices[1] == 0 && indices[4] == 1 && indices[0] == 2 && indices[2] == 3);
}

} // verus!
