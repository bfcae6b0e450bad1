//! Instances: what one draw call contributes to a batch, and the packed form
//! in which it is uploaded.

use vstd::prelude::*;
use crate::camera::Camera;
use crate::color::Color;
use crate::layout::{VertexAttribute, VertexBufferLayout, VertexFormat, VertexStepMode};
use crate::words::{
    bytes_words, cast_words, is_image_of, lemma_words_roundtrip, read_word, words_bytes, ByteOrder,
};

verus! {

/// Number of 32-bit words in a packed instance: a 4x4 matrix and a colour.
pub const INSTANCE_WORDS: usize = 20;

/// Number of bytes in a packed instance.
pub const INSTANCE_BYTES: u64 = 80;

/// The shader location of the first instance attribute.
pub const FIRST_INSTANCE_LOCATION: u32 = 2;

/// One draw request as it waits in a batch: the camera it is seen through,
/// its 4x4 model matrix, and its tint. All numbers are binary32 bit
/// patterns.
#[derive(Clone, Copy, Debug, PartialEq, Eq)]
pub struct DrawInstance {
    pub camera: Camera,
    pub model: [[u32; 4]; 4],
    pub color: Color,
}

impl DrawInstance {
    /// The packed form of the instance, given `transform`, the product of
    /// the camera's view-projection matrix and the model matrix: that
    /// matrix, then the tint.
    pub fn into_raw(self, transform: [[u32; 4]; 4]) -> (raw: RawInstance)
        ensures
            raw.matrix == transform,
            raw.color@ == self.color.channels(),
    {
        RawInstance { matrix: transform, color: self.color.as_array() }
    }
}

/// An instance in the layout the vertex shader reads: the final 4x4 matrix,
/// then the colour.
#[derive(Clone, Copy, Debug, PartialEq, Eq)]
pub struct RawInstance {
    pub matrix: [[u32; 4]; 4],
    pub color: [u32; 4],
}

impl RawInstance {
    /// The twenty words of the instance in packing order: the sixteen
    /// entries of the matrix in row-major order, entry `[i][j]` at word
    /// `4 * i + j`, then red, green, blue and alpha.
    pub open spec fn words(self) -> Seq<u32> {
        Seq::new(
            20,
            |i: int|
                if i < 16 {
                    self.matrix[i / 4][i % 4]
                } else {
                    self.color[i - 16]
                },
        )
    }

    /// The attributes of the instance stream: five vectors of four floats,
    /// sixteen bytes apart, at consecutive shader locations from
    /// [`FIRST_INSTANCE_LOCATION`].
    pub open spec fn spec_attributes() -> Seq<VertexAttribute> {
        Seq::new(
            5,
            |i: int|
                VertexAttribute {
                    format: VertexFormat::Float32x4,
                    offset: (16 * i) as u64,
                    shader_location: (FIRST_INSTANCE_LOCATION + i) as u32,
                },
        )
    }

    /// The layout of a buffer of packed instances.
    pub fn buffer_layout() -> (layout: VertexBufferLayout)
        ensures
            layout.array_stride == INSTANCE_BYTES,
            layout.step_mode == VertexStepMode::Instance,
            layout.attributes@ == Self::spec_attributes(),
            layout.tiles(),
            layout.locations_from(FIRST_INSTANCE_LOCATION as nat),
    {
        let mut attributes: Vec<VertexAttribute> = Vec::new();
        let mut i: u32 = 0;
        while i < 5
            invariant
                i <= 5,
                attributes@ == Self::spec_attributes().take(i as int),
            decreases 5 - i,
        {
            attributes.push(
                VertexAttribute {
                    format: VertexFormat::Float32x4,
                    offset: 16 * (i as u64),
                    shader_location: FIRST_INSTANCE_LOCATION + i,
                },
            );
            i += 1;
        }
        VertexBufferLayout {
            array_stride: INSTANCE_BYTES,
            step_mode: VertexStepMode::Instance,
            attributes,
        }
    }

    /// Appends the twenty words of the instance to `out`.
    pub fn push_words(&self, out: &mut Vec<u32>)
        ensures
            final(out)@ == old(out)@ + self.words(),
    {
        let mut k: usize = 0;
        while k < INSTANCE_WORDS
            invariant
                k <= INSTANCE_WORDS,
                out@ == old(out)@ + self.words().take(k as int),
            decreases INSTANCE_WORDS - k,
        {
            let word = if k < 16 {
                self.matrix[k / 4][k % 4]
            } else {
                self.color[k - 16]
            };
            out.push(word);
            k += 1;
        }
    }
}

/// The words of a run of instances: twenty per instance, instances in order.
pub open spec fn instances_words(instances: Seq<RawInstance>) -> Seq<u32> {
    Seq::new(20 * instances.len(), |i: int| instances[i / 20].words()[i % 20])
}

/// The bytes uploaded for a run of instances on a machine of the given byte
/// order.
pub open spec fn packed(instances: Seq<RawInstance>, order: ByteOrder) -> Seq<u8> {
    words_bytes(instances_words(instances), order)
}

/// Packs instances into the bytes of their buffer: the memory image of
/// their words, eighty bytes per instance.
pub fn pack(instances: &[RawInstance]) -> (bytes: Vec<u8>)
    ensures
        is_image_of(bytes@, instances_words(instances@)),
        bytes@.len() == INSTANCE_BYTES * instances@.len(),
{
    let mut words: Vec<u32> = Vec::new();
    let mut i: usize = 0;
    while i < instances.len()
        invariant
            i <= instances.len(),
            words@ == instances_words(instances@.take(i as int)),
        decreases instances.len() - i,
    {
        instances[i].push_words(&mut words);
        i += 1;
    }
    assert(instances@.take(i as int) == instances@);
    cast_words(words.as_slice())
}

/// Word `i` read back from the packed bytes is word `i` of the instances.
proof fn lemma_read_back(instances: Seq<RawInstance>, order: ByteOrder, i: int)
    requires
        0 <= i < 20 * instances.len(),
    ensures
        packed(instances, order).len() == 80 * instances.len(),
        read_word(packed(instances, order), i, order) == instances[i / 20].words()[i % 20],
{
    let words = instances_words(instances);
    lemma_words_roundtrip(words, order);
    assert(bytes_words(packed(instances, order), order)[i] == words[i]);
}

/// The matrix entry `[i][j]` of instance `k`, read back.
proof fn lemma_read_back_matrix(
    instances: Seq<RawInstance>,
    order: ByteOrder,
    k: int,
    i: int,
    j: int,
)
    requires
        0 <= k < instances.len(),
        0 <= i < 4,
        0 <= j < 4,
    ensures
        read_word(packed(instances, order), 20 * k + 4 * i + j, order)
            == instances[k].matrix[i][j],
{
    let entry = 4 * i + j;
    let word = 20 * k + entry;
    assert(word / 20 == k && word % 20 == entry);
    assert(entry / 4 == i && entry % 4 == j);
    lemma_read_back(instances, order, word);
}

/// The colour channel `channel` of instance `k`, read back.
proof fn lemma_read_back_color(instances: Seq<RawInstance>, order: ByteOrder, k: int, channel: int)
    requires
        0 <= k < instances.len(),
        0 <= channel < 4,
    ensures
        read_word(packed(instances, order), 20 * k + 16 + channel, order)
            == instances[k].color[channel],
{
    let j = 16 + channel;
    let i = 20 * k + j;
    assert(i / 20 == k && i % 20 == j);
    lemma_read_back(instances, order, i);
}

/// Packing is lossless and puts every instance at its own eighty bytes:
/// reading the packed bytes back word by word, in the byte order in which
/// they were written, gives for each instance its matrix and its colour
/// exactly.
pub proof fn lemma_pack_roundtrip(instances: Seq<RawInstance>, order: ByteOrder)
    ensures
        packed(instances, order).len() == INSTANCE_BYTES * instances.len(),
        forall|k: int, i: int, j: int|
            0 <= k < instances.len() && 0 <= i < 4 && 0 <= j < 4 ==> read_word(
                packed(instances, order),
                20 * k + 4 * i + j,
                order,
            ) == #[trigger] instances[k].matrix[i][j],
        forall|k: int, channel: int|
            0 <= k < instances.len() && 0 <= channel < 4 ==> read_word(
                packed(instances, order),
                20 * k + 16 + channel,
                order,
            ) == #[trigger] instances[k].color[channel],
{
    lemma_words_roundtrip(instances_words(instances), order);
    assert forall|k: int, i: int, j: int|
        0 <= k < instances.len() && 0 <= i < 4 && 0 <= j < 4 implies read_word(
        packed(instances, order),
        20 * k + 4 * i + j,
        order,
    ) == #[trigger] instances[k].matrix[i][j] by {
        lemma_read_back_matrix(instances, order, k, i, j);
    }
    assert forall|k: int, channel: int|
        0 <= k < instances.len() && 0 <= channel < 4 implies read_word(
        packed(instances, order),
        20 * k + 16 + channel,
        order,
    ) == #[trigger] instances[k].color[channel] by {
        lemma_read_back_color(instances, order, k, channel);
    }
}

} // verus!
