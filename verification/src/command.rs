//! The commands a frame is made of.
//!
//! The library decides what has to happen on the GPU and in which order; it
//! does not talk to the GPU. A frame comes out as a list of commands that
//! the caller carries out one after the other.

use vstd::prelude::*;
use crate::instance::DrawInstance;

verus! {

/// One step of a frame. Instance buffers are named by the label of the batch
/// they belong to; pipelines and bind groups by the handles the caller gave
/// them.
#[derive(Debug, PartialEq, Eq)]
pub enum Command {
    /// Give the batch `label` a new instance buffer of exactly `size` bytes,
    /// usable as a vertex buffer and as a copy destination. A buffer the
    /// batch already had is dropped.
    Allocate { label: String, size: u64 },
    /// Pack `instances` and write the bytes to the start of the instance
    /// buffer of the batch `label`.
    Upload { label: String, instances: Vec<DrawInstance> },
    /// Drop the instance buffer of the batch `label`.
    Release { label: String },
    /// Bind a render pipeline.
    SetPipeline { pipeline: u64 },
    /// Bind a bind group at `index`.
    SetBindGroup { index: u32, group: u64 },
    /// Bind the vertex buffer of the shared quad at `slot`.
    SetQuadVertices { slot: u32 },
    /// Bind the index buffer of the shared quad; its indices are 16 bits
    /// wide.
    SetQuadIndices,
    /// Bind the instance buffer of the batch `label` at `slot`.
    SetInstances { slot: u32, label: String },
    /// Draw `indices` indices from the start of the index buffer, once for
    /// each of the first `count` instances.
    DrawIndexed { indices: u32, count: u32 },
}

/// What a [`Command`] says, with strings and vectors as sequences.
pub enum CommandView {
    Allocate { label: Seq<char>, size: u64 },
    Upload { label: Seq<char>, instances: Seq<DrawInstance> },
    Release { label: Seq<char> },
    SetPipeline { pipeline: u64 },
    SetBindGroup { index: u32, group: u64 },
    SetQuadVertices { slot: u32 },
    SetQuadIndices,
    SetInstances { slot: u32, label: Seq<char> },
    DrawIndexed { indices: u32, count: u32 },
}

impl DeepView for Command {
    type V = CommandView;

    open spec fn deep_view(&self) -> CommandView {
        match *self {
            Command::Allocate { label, size } => CommandView::Allocate { label: label@, size },
            Command::Upload { label, instances } => CommandView::Upload {
                label: label@,
                instances: instances@,
            },
            Command::Release { label } => CommandView::Release { label: label@ },
            Command::SetPipeline { pipeline } => CommandView::SetPipeline { pipeline },
            Command::SetBindGroup { index, group } => CommandView::SetBindGroup { index, group },
            Command::SetQuadVertices { slot } => CommandView::SetQuadVertices { slot },
            Command::SetQuadIndices => CommandView::SetQuadIndices,
            Command::SetInstances { slot, label } => CommandView::SetInstances {
                slot,
                label: label@,
            },
            Command::DrawIndexed { indices, count } => CommandView::DrawIndexed { indices, count },
        }
    }
}

impl CommandView {
    /// The instances this command uploads.
    pub open spec fn uploads(self) -> Seq<DrawInstance> {
        match self {
            CommandView::Upload { instances, .. } => instances,
            _ => Seq::empty(),
        }
    }

    /// The number of instances this command draws.
    pub open spec fn draws(self) -> nat {
        match self {
            CommandView::DrawIndexed { count, .. } => count as nat,
            _ => 0,
        }
    }
}

/// All instances that `commands` upload, in order.
pub open spec fn uploaded(commands: Seq<CommandView>) -> Seq<DrawInstance>
    decreases commands.len(),
{
    if commands.len() == 0 {
        Seq::empty()
    } else {
        uploaded(commands.drop_last()) + commands.last().uploads()
    }
}

/// The number of instances that `commands` draw.
pub open spec fn drawn(commands: Seq<CommandView>) -> nat
    decreases commands.len(),
{
    if commands.len() == 0 {
        0
    } else {
        drawn(commands.drop_last()) + commands.last().draws()
    }
}

/// What two runs of commands upload and draw one after the other is what
/// the first uploads and draws, followed by what the second does.
pub proof fn lemma_commands_add(first: Seq<CommandView>, second: Seq<CommandView>)
    ensures
        uploaded(first + second) == uploaded(first) + uploaded(second),
        drawn(first + second) == drawn(first) + drawn(second),
    decreases second.len(),
{
    if second.len() == 0 {
        assert(first + second =~= first);
        assert(uploaded(first) + uploaded(second) =~= uploaded(first));
    } else {
        lemma_commands_add(first, second.drop_last());
        assert((first + second).drop_last() =~= first + second.drop_last());
        assert((first + second).last() == second.last());
        assert(uploaded(first + second) =~= uploaded(first) + uploaded(second));
    }
}

/// Appends `command` to `commands`.
pub(crate) fn push(commands: &mut Vec<Command>, command: Command)
    ensures
        final(commands)@ == old(commands)@.push(command),
        final(commands).deep_view() == old(commands).deep_view().push(command.deep_view()),
{
    commands.push(command);
    assert(commands.deep_view() =~= old(commands).deep_view().push(command.deep_view()));
}

} // verus!
