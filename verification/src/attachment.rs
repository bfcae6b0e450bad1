//! What a batch needs bound before it can be drawn.

use vstd::prelude::*;
use crate::command::{Command, CommandView};

verus! {

/// The bind group index at which a sprite's texture is bound.
pub const TEXTURE_GROUP: u32 = 0;

/// A GPU object that a batch binds before its draw call, named by the handle
/// under which the caller keeps it. A batch binds its attachments in list
/// order, so a pipeline comes before the bind groups laid out for it.
#[derive(Clone, Copy, Debug, PartialEq, Eq)]
pub enum DrawAttachment {
    /// A render pipeline.
    Pipeline(u64),
    /// The bind group of a texture and its sampler.
    Texture(u64),
}

impl DrawAttachment {
    /// The command that binds this attachment.
    pub open spec fn spec_attach(self) -> CommandView {
        match self {
            DrawAttachment::Pipeline(pipeline) => CommandView::SetPipeline { pipeline },
            DrawAttachment::Texture(group) => CommandView::SetBindGroup {
                index: TEXTURE_GROUP,
                group,
            },
        }
    }

    /// The command that binds this attachment: a pipeline is set, a texture
    /// is bound as bind group [`TEXTURE_GROUP`].
    pub fn attach(&self) -> (command: Command)
        ensures
            command.deep_view() == self.spec_attach(),
    {
        match self {
            DrawAttachment::Pipeline(pipeline) => Command::SetPipeline { pipeline: *pipeline },
            DrawAttachment::Texture(group) => Command::SetBindGroup {
                index: TEXTURE_GROUP,
                group: *group,
            },
        }
    }
}

} // verus!
