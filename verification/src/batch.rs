//! A draw batch: the instances that share one set of bindings, the capacity
//! of the buffer they are uploaded to, and the count of frames the batch has
//! left before it is dropped for lack of use.

use vstd::prelude::*;
use crate::attachment::DrawAttachment;
use crate::command::{push, Command, CommandView};
use crate::instance::{DrawInstance, INSTANCE_BYTES};
use crate::quad::Quad;

verus! {

/// The vertex buffer slot of a batch's instances.
pub const INSTANCE_SLOT: u32 = 1;

/// The bytes that `count` packed instances occupy.
pub open spec fn bytes_for(count: nat) -> nat {
    (INSTANCE_BYTES * count) as nat
}

/// The state of a batch as contracts speak of it.
pub struct BatchView {
    /// The key under which the batch is kept; also the name of its buffer.
    pub label: Seq<char>,
    /// What the batch binds before drawing, in bind order.
    pub attachments: Seq<DrawAttachment>,
    /// The instances added since the last write, oldest first.
    pub instances: Seq<DrawInstance>,
    /// The capacity of the instance buffer, in bytes.
    pub size: nat,
    /// The idle frames left before the batch is dropped.
    pub lifetime: nat,
}

/// What one write hands to the caller, as contracts speak of it.
pub struct FlushView {
    pub count: nat,
    pub allocate: Option<nat>,
    pub instances: Seq<DrawInstance>,
}

impl BatchView {
    /// The number of instances waiting to be drawn.
    pub open spec fn count(self) -> nat {
        self.instances.len()
    }

    /// The bytes the waiting instances need once packed.
    pub open spec fn required(self) -> nat {
        bytes_for(self.count())
    }

    /// A batch that has just been made for `instances`: the buffer holds them
    /// exactly, and the batch has its whole lifetime ahead.
    pub open spec fn new(
        label: Seq<char>,
        attachments: Seq<DrawAttachment>,
        instances: Seq<DrawInstance>,
    ) -> BatchView {
        BatchView {
            label,
            attachments,
            instances,
            size: bytes_for(instances.len()),
            lifetime: DrawBatch::LIFETIME as nat,
        }
    }

    /// The batch with one more instance waiting.
    pub open spec fn added(self, instance: DrawInstance) -> BatchView {
        BatchView { instances: self.instances.push(instance), ..self }
    }

    /// The batch with all of `more` waiting behind what waited before.
    pub open spec fn added_all(self, more: Seq<DrawInstance>) -> BatchView {
        BatchView { instances: self.instances + more, ..self }
    }

    /// Whether the waiting instances do not fit the buffer.
    pub open spec fn outgrown(self) -> bool {
        self.required() > self.size
    }

    /// The batch after a write. The buffer grows to what the waiting
    /// instances need and never shrinks; nothing is left waiting; a batch that
    /// had instances gets its whole lifetime back, an idle one loses a frame
    /// of it, down to zero.
    pub open spec fn written(self) -> BatchView {
        BatchView {
            instances: Seq::empty(),
            size: if self.outgrown() {
                self.required()
            } else {
                self.size
            },
            lifetime: if self.count() > 0 {
                DrawBatch::LIFETIME as nat
            } else if self.lifetime > 0 {
                (self.lifetime - 1) as nat
            } else {
                0
            },
            ..self
        }
    }

    /// What a write hands out: how many instances to draw, the size of the
    /// buffer to allocate if the old one is too small, and the instances to
    /// upload.
    pub open spec fn flush(self) -> FlushView {
        FlushView {
            count: self.count(),
            allocate: if self.outgrown() {
                Some(self.required())
            } else {
                None
            },
            instances: self.instances,
        }
    }

    /// The batch after one frame in which `more` is added and the batch is
    /// then written.
    pub open spec fn frame(self, more: Seq<DrawInstance>) -> BatchView {
        self.added_all(more).written()
    }

    /// The batch after one frame for each element of `frames`, in order.
    pub open spec fn frames(self, frames: Seq<Seq<DrawInstance>>) -> BatchView
        decreases frames.len(),
    {
        if frames.len() == 0 {
            self
        } else {
            self.frames(frames.drop_last()).frame(frames.last())
        }
    }

    /// The batch after `n` frames in which nothing is added.
    pub open spec fn idle(self, n: nat) -> BatchView
        decreases n,
    {
        if n == 0 {
            self
        } else {
            self.idle((n - 1) as nat).frame(Seq::empty())
        }
    }

    /// The commands that bind the attachments, in list order.
    pub open spec fn attach_commands(self) -> Seq<CommandView> {
        Seq::new(self.attachments.len(), |i: int| self.attachments[i].spec_attach())
    }

    /// The commands with which the batch takes part in a frame. A batch with
    /// nothing waiting takes no part. Otherwise the buffer is replaced if it
    /// is too small, the instances are uploaded, the attachments are bound in
    /// order, the instance buffer is bound at [`INSTANCE_SLOT`], and the quad
    /// is drawn once per instance.
    pub open spec fn draw_commands(self) -> Seq<CommandView> {
        if self.count() == 0 {
            Seq::empty()
        } else {
            let allocate = if self.outgrown() {
                seq![CommandView::Allocate { label: self.label, size: self.required() as u64 }]
            } else {
                Seq::empty()
            };
            allocate + seq![CommandView::Upload { label: self.label, instances: self.instances }]
                + self.attach_commands() + seq![
                CommandView::SetInstances { slot: INSTANCE_SLOT, label: self.label },
                CommandView::DrawIndexed {
                    indices: Quad::NUM_INDICES,
                    count: self.count() as u32,
                },
            ]
        }
    }

    /// Whether the batch has used up its lifetime and is due to be dropped.
    pub open spec fn expired(self) -> bool {
        self.lifetime == 0
    }

    /// The command that allocates the buffer at its present capacity.
    pub open spec fn allocation(self) -> CommandView {
        CommandView::Allocate { label: self.label, size: self.size as u64 }
    }
}

/// What one write of a batch hands to the caller.
#[derive(Debug, PartialEq, Eq)]
pub struct Flush {
    /// The number of instances to draw this frame.
    pub count: u32,
    /// The size of the buffer to allocate in place of the present one, if
    /// the instances do not fit it.
    pub allocate: Option<u64>,
    /// The instances to pack and upload, in the order in which they were
    /// added. Empty exactly when `count` is zero.
    pub instances: Vec<DrawInstance>,
}

impl View for Flush {
    type V = FlushView;

    open spec fn view(&self) -> FlushView {
        FlushView {
            count: self.count as nat,
            allocate: match self.allocate {
                Some(size) => Some(size as nat),
                None => None,
            },
            instances: self.instances@,
        }
    }
}

/// A group of instances drawn with one call.
#[derive(Debug)]
pub struct DrawBatch {
    label: String,
    attachments: Vec<DrawAttachment>,
    instances: Vec<DrawInstance>,
    size: u64,
    count: u32,
    lifetime: usize,
}

impl View for DrawBatch {
    type V = BatchView;

    closed spec fn view(&self) -> BatchView {
        BatchView {
            label: self.label@,
            attachments: self.attachments@,
            instances: self.instances@,
            size: self.size as nat,
            lifetime: self.lifetime as nat,
        }
    }
}

impl DrawBatch {
    /// The number of consecutive frames a batch may stay without instances
    /// before it is dropped.
    pub const LIFETIME: usize = 10;

    /// The batch is in a state that its own operations produce: the stored
    /// count is the number of waiting instances, and the lifetime has not
    /// been raised above [`DrawBatch::LIFETIME`].
    pub closed spec fn wf(&self) -> bool {
        &&& self.count == self.instances@.len()
        &&& self.lifetime <= DrawBatch::LIFETIME
    }

    /// What follows from well-formedness for the view.
    pub proof fn lemma_wf(&self)
        requires
            self.wf(),
        ensures
            self@.count() <= u32::MAX,
            self@.required() <= u64::MAX,
            self@.size <= u64::MAX,
            self@.lifetime <= DrawBatch::LIFETIME,
    {
    }

    /// Makes a batch for `instances`, with a buffer capacity that holds them
    /// exactly and a full lifetime.
    pub fn new(
        label: &str,
        attachments: Vec<DrawAttachment>,
        instances: Vec<DrawInstance>,
    ) -> (batch: DrawBatch)
        requires
            instances@.len() <= u32::MAX,
        ensures
            batch.wf(),
            batch@ == BatchView::new(label@, attachments@, instances@),
    {
        let count = instances.len() as u32;
        let size = INSTANCE_BYTES * (count as u64);
        DrawBatch {
            label: label.to_owned(),
            attachments,
            instances,
            size,
            count,
            lifetime: DrawBatch::LIFETIME,
        }
    }

    /// The key of the batch.
    pub fn label(&self) -> (label: &String)
        ensures
            label@ == self@.label,
    {
        &self.label
    }

    /// What the batch binds before drawing, in bind order.
    pub fn attachments(&self) -> (attachments: &Vec<DrawAttachment>)
        ensures
            attachments@ == self@.attachments,
    {
        &self.attachments
    }

    /// The instances waiting to be drawn, oldest first.
    pub fn instances(&self) -> (instances: &Vec<DrawInstance>)
        ensures
            instances@ == self@.instances,
    {
        &self.instances
    }

    /// The capacity of the instance buffer, in bytes.
    pub fn size(&self) -> (size: u64)
        ensures
            size == self@.size,
    {
        self.size
    }

    /// The number of instances waiting to be drawn.
    pub fn count(&self) -> (count: u32)
        requires
            self.wf(),
        ensures
            count == self@.count(),
    {
        self.count
    }

    /// The idle frames left before the batch is dropped.
    pub fn lifetime(&self) -> (lifetime: usize)
        ensures
            lifetime == self@.lifetime,
    {
        self.lifetime
    }

    /// Whether the batch has used up its lifetime.
    pub fn expired(&self) -> (expired: bool)
        ensures
            expired == self@.expired(),
    {
        self.lifetime == 0
    }

    /// The command that allocates the instance buffer at its present
    /// capacity. It is what has to be done once for a batch that has just
    /// been made.
    pub fn allocation(&self) -> (command: Command)
        ensures
            command.deep_view() == self@.allocation(),
    {
        Command::Allocate { label: self.label.clone(), size: self.size }
    }

    /// Adds one instance behind those already waiting.
    pub fn add(&mut self, instance: DrawInstance)
        requires
            old(self).wf(),
            old(self)@.count() < u32::MAX,
        ensures
            final(self).wf(),
            final(self)@ == old(self)@.added(instance),
    {
        self.instances.push(instance);
        self.count += 1;
    }

    /// Ends the frame for this batch. The waiting instances are handed out
    /// for upload, together with their number and, if they need more room
    /// than the buffer has, the size to allocate; the batch is left empty,
    /// with the capacity grown to that size and its lifetime reset or run
    /// down by one frame.
    pub fn write(&mut self) -> (flush: Flush)
        requires
            old(self).wf(),
        ensures
            final(self).wf(),
            final(self)@ == old(self)@.written(),
            flush@ == old(self)@.flush(),
    {
        let size = INSTANCE_BYTES * (self.count as u64);
        let mut allocate: Option<u64> = None;
        if size > self.size {
            allocate = Some(size);
            self.size = size;
        }
        let mut instances: Vec<DrawInstance> = Vec::new();
        if size > 0 {
            core::mem::swap(&mut self.instances, &mut instances);
        }
        if self.count > 0 {
            self.lifetime = DrawBatch::LIFETIME;
        } else if self.lifetime > 0 {
            self.lifetime -= 1;
        }
        let count = self.count;
        self.count = 0;
        proof {
            assert(self.instances@ =~= Seq::empty());
            assert(instances@ =~= old(self).instances@);
        }
        Flush { count, allocate, instances }
    }

    /// Ends the frame for this batch and appends the commands that draw it.
    /// The batch is written; if it had instances, the commands replace the
    /// buffer where it was too small, upload the instances, bind the
    /// attachments in order and the instance buffer after them, and draw.
    pub fn draw(&mut self, commands: &mut Vec<Command>)
        requires
            old(self).wf(),
        ensures
            final(self).wf(),
            final(self)@ == old(self)@.written(),
            final(commands).deep_view() == old(commands).deep_view()
                + old(self)@.draw_commands(),
    {
        let ghost before = commands.deep_view();
        let ghost batch = self@;
        let flush = self.write();
        if flush.count == 0 {
            assert(commands.deep_view() =~= before + batch.draw_commands());
            return ;
        }
        let ghost mut head = before;
        if let Some(size) = flush.allocate {
            push(commands, Command::Allocate { label: self.label.clone(), size });
            proof {
                head = head.push(CommandView::Allocate { label: batch.label, size });
            }
        }
        push(commands, Command::Upload { label: self.label.clone(), instances: flush.instances });
        proof {
            head = head.push(
                CommandView::Upload { label: batch.label, instances: batch.instances },
            );
        }
        let mut i: usize = 0;
        while i < self.attachments.len()
            invariant
                i <= self.attachments.len(),
                self.attachments@ == batch.attachments,
                commands.deep_view() == head + batch.attach_commands().take(i as int),
            decreases self.attachments.len() - i,
        {
            let command = self.attachments[i].attach();
            push(commands, command);
            assert((head + batch.attach_commands().take(i as int)).push(
                batch.attach_commands()[i as int],
            ) =~= head + batch.attach_commands().take(i as int + 1));
            i += 1;
        }
        assert(batch.attach_commands().take(i as int) =~= batch.attach_commands());
        push(commands, Command::SetInstances { slot: INSTANCE_SLOT, label: self.label.clone() });
        push(commands, Command::DrawIndexed { indices: Quad::NUM_INDICES, count: flush.count });
        assert(commands.deep_view() =~= before + batch.draw_commands());
    }
}

/// The largest number of instances that any write of `frames` sees, when
/// `waiting` instances wait before the first frame.
pub open spec fn peak(waiting: nat, frames: Seq<Seq<DrawInstance>>) -> nat
    decreases frames.len(),
{
    if frames.len() == 0 {
        0
    } else if frames.len() == 1 {
        waiting + frames[0].len()
    } else {
        let before = peak(waiting, frames.drop_last());
        if frames.last().len() > before {
            frames.last().len()
        } else {
            before
        }
    }
}

/// A frame never shrinks the buffer: the capacity after the write is the
/// larger of the capacity before and what the frame's instances need.
pub proof fn lemma_frame_capacity(batch: BatchView, more: Seq<DrawInstance>)
    ensures
        batch.frame(more).size >= batch.size,
        batch.frame(more).size == if bytes_for(batch.count() + more.len()) > batch.size {
            bytes_for(batch.count() + more.len())
        } else {
            batch.size
        },
        batch.frame(more).count() == 0,
        batch.frame(more).label == batch.label,
        batch.frame(more).attachments == batch.attachments,
{
}

/// Over any run of frames the capacity only grows, and it ends at the size
/// of the largest upload there has been: the capacity at the start, or
/// eighty bytes for each instance of the fullest write, whichever is more.
pub proof fn lemma_capacity_is_peak(batch: BatchView, frames: Seq<Seq<DrawInstance>>)
    ensures
        batch.frames(frames).size >= batch.size,
        batch.frames(frames).size == if bytes_for(peak(batch.count(), frames)) > batch.size {
            bytes_for(peak(batch.count(), frames))
        } else {
            batch.size
        },
        frames.len() > 0 ==> batch.frames(frames).count() == 0,
    decreases frames.len(),
{
    if frames.len() == 0 {
    } else if frames.len() == 1 {
        assert(frames.drop_last().len() == 0);
        assert(batch.frames(frames.drop_last()) == batch);
        lemma_frame_capacity(batch, frames[0]);
    } else {
        let before = batch.frames(frames.drop_last());
        lemma_capacity_is_peak(batch, frames.drop_last());
        lemma_frame_capacity(before, frames.last());
    }
}

/// A batch made for some instances and then taken through at least one
/// frame has a buffer of exactly eighty bytes for each instance of the
/// fullest write.
pub proof fn lemma_fresh_capacity_is_peak(
    label: Seq<char>,
    attachments: Seq<DrawAttachment>,
    initial: Seq<DrawInstance>,
    frames: Seq<Seq<DrawInstance>>,
)
    requires
        frames.len() > 0,
    ensures
        BatchView::new(label, attachments, initial).frames(frames).size == bytes_for(
            peak(initial.len(), frames),
        ),
{
    let batch = BatchView::new(label, attachments, initial);
    lemma_capacity_is_peak(batch, frames);
    lemma_peak_covers_first(initial.len(), frames);
}

/// The peak is at least what the first write sees.
proof fn lemma_peak_covers_first(waiting: nat, frames: Seq<Seq<DrawInstance>>)
    requires
        frames.len() > 0,
    ensures
        peak(waiting, frames) >= waiting + frames[0].len(),
    decreases frames.len(),
{
    if frames.len() > 1 {
        lemma_peak_covers_first(waiting, frames.drop_last());
    }
}

/// A batch with nothing waiting that stays idle for `n` frames keeps its
/// buffer and loses one frame of lifetime per frame until none is left.
pub proof fn lemma_idle_countdown(batch: BatchView, n: nat)
    requires
        batch.count() == 0,
    ensures
        batch.idle(n).lifetime == if n <= batch.lifetime {
            batch.lifetime - n
        } else {
            0
        },
        batch.idle(n).size == batch.size,
        batch.idle(n).count() == 0,
        batch.idle(n).label == batch.label,
        batch.idle(n).attachments == batch.attachments,
    decreases n,
{
    if n > 0 {
        lemma_idle_countdown(batch, (n - 1) as nat);
        assert(batch.idle((n - 1) as nat).instances + Seq::<DrawInstance>::empty()
            =~= batch.idle((n - 1) as nat).instances);
    }
}

/// A batch that has just been drawn expires on the write of its tenth idle
/// frame in a row and not before: after `n` idle frames it has expired
/// exactly if `n` is at least [`DrawBatch::LIFETIME`].
pub proof fn lemma_expires_after_lifetime(batch: BatchView, n: nat)
    requires
        batch.count() == 0,
        batch.lifetime == DrawBatch::LIFETIME,
    ensures
        batch.idle(n).expired() <==> n >= DrawBatch::LIFETIME,
        n <= DrawBatch::LIFETIME ==> batch.idle(n).lifetime == DrawBatch::LIFETIME - n,
{
    lemma_idle_countdown(batch, n);
}

/// However long a batch has been idle, a frame that brings it at least one
/// instance gives it its whole lifetime back.
pub proof fn lemma_use_resets_lifetime(batch: BatchView, n: nat, more: Seq<DrawInstance>)
    requires
        batch.count() == 0,
        more.len() > 0,
    ensures
        batch.idle(n).frame(more).lifetime == DrawBatch::LIFETIME,
        !batch.idle(n).frame(more).expired(),
{
    lemma_idle_countdown(batch, n);
}

} // verus!
