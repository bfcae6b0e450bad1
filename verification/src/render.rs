//! What a frame renders.
//!
//! The commands of a frame are read as a render pass would carry them out:
//! bindings are made, buffers are filled, and each draw call draws the
//! instances its bound buffer holds with the pipeline and the texture bound
//! at that moment. Read that way, a frame draws each batch that has
//! instances once, with the batch's own pipeline, texture and instances,
//! and no draw call is made before everything it needs is bound.

use vstd::prelude::*;
use crate::attachment::{DrawAttachment, TEXTURE_GROUP};
use crate::batch::{BatchView, INSTANCE_SLOT};
use crate::batcher::BatcherView;
use crate::command::CommandView;
use crate::draw::{is_sprite_batch, DrawView};
use crate::instance::DrawInstance;
use crate::quad::{Quad, VERTEX_SLOT};

verus! {

/// One draw call as it comes out: which pipeline drew which instances with
/// which texture.
pub struct Drawn {
    pub pipeline: u64,
    pub texture: u64,
    pub instances: Seq<DrawInstance>,
}

/// A render pass under way.
pub struct Pass {
    /// What each instance buffer holds from its start, by label.
    pub contents: Map<Seq<char>, Seq<DrawInstance>>,
    /// Whether the quad's vertices are bound.
    pub vertices: bool,
    /// Whether the quad's indices are bound.
    pub indices: bool,
    /// The batch whose instance buffer is bound.
    pub instances: Option<Seq<char>>,
    /// The pipeline that is bound.
    pub pipeline: Option<u64>,
    /// The texture bind group that is bound.
    pub texture: Option<u64>,
    /// The draw calls made so far.
    pub drawn: Seq<Drawn>,
    /// Whether every draw call so far found bound what it needs.
    pub valid: bool,
}

impl Pass {
    /// Whether a draw call of `indices` indices and `count` instances finds
    /// what it needs: the quad, a pipeline, a texture, and an instance
    /// buffer that holds exactly `count` instances.
    pub open spec fn can_draw(self, indices: u32, count: u32) -> bool {
        &&& self.vertices
        &&& self.indices
        &&& indices == Quad::NUM_INDICES
        &&& self.pipeline is Some
        &&& self.texture is Some
        &&& self.instances is Some
        &&& self.contents.contains_key(self.instances->0)
        &&& self.contents[self.instances->0].len() == count
    }

    /// The pass without the binding of the instance buffer `label`, if that
    /// is the one bound.
    pub open spec fn unbound(self, label: Seq<char>) -> Pass {
        if self.instances == Some(label) {
            Pass { instances: None, ..self }
        } else {
            self
        }
    }

    /// The pass after one more command.
    pub open spec fn step(self, command: CommandView) -> Pass {
        match command {
            CommandView::Allocate { label, .. } => Pass {
                contents: self.contents.remove(label),
                ..self.unbound(label)
            },
            CommandView::Upload { label, instances } => Pass {
                contents: self.contents.insert(label, instances),
                ..self
            },
            CommandView::Release { label } => Pass {
                contents: self.contents.remove(label),
                ..self.unbound(label)
            },
            CommandView::SetPipeline { pipeline } => Pass { pipeline: Some(pipeline), ..self },
            CommandView::SetBindGroup { index, group } => if index == TEXTURE_GROUP {
                Pass { texture: Some(group), ..self }
            } else {
                self
            },
            CommandView::SetQuadVertices { slot } => if slot == VERTEX_SLOT {
                Pass { vertices: true, ..self }
            } else {
                self
            },
            CommandView::SetQuadIndices => Pass { indices: true, ..self },
            CommandView::SetInstances { slot, label } => if slot == INSTANCE_SLOT {
                Pass { instances: Some(label), ..self }
            } else {
                self
            },
            CommandView::DrawIndexed { indices, count } => Pass {
                valid: self.valid && self.can_draw(indices, count),
                drawn: self.drawn.push(
                    Drawn {
                        pipeline: self.pipeline->0,
                        texture: self.texture->0,
                        instances: self.contents[self.instances->0],
                    },
                ),
                ..self
            },
        }
    }

    /// The pass after `commands`, in order.
    pub open spec fn run(self, commands: Seq<CommandView>) -> Pass
        decreases commands.len(),
    {
        if commands.len() == 0 {
            self
        } else {
            self.run(commands.drop_last()).step(commands.last())
        }
    }
}

impl BatchView {
    /// The texture a batch of sprites binds.
    pub open spec fn texture(self) -> u64 {
        self.attachments[1]->Texture_0
    }

    /// What the batch renders in a frame: nothing if it has no instances,
    /// or else one draw call of all of them.
    pub open spec fn rendered(self, pipeline: u64) -> Seq<Drawn> {
        if self.count() == 0 {
            Seq::empty()
        } else {
            seq![Drawn { pipeline, texture: self.texture(), instances: self.instances }]
        }
    }
}

impl BatcherView {
    /// What the batches render in a frame, batch after batch.
    pub open spec fn rendered(self, pipeline: u64) -> Seq<Drawn>
        decreases self.batches.len(),
    {
        if self.batches.len() == 0 {
            Seq::empty()
        } else {
            BatcherView { batches: self.batches.drop_last() }.rendered(pipeline)
                + self.batches.last().rendered(pipeline)
        }
    }
}

/// Running two runs of commands one after the other is running the first
/// and then, from where it ends, the second.
pub proof fn lemma_run_add(pass: Pass, first: Seq<CommandView>, second: Seq<CommandView>)
    ensures
        pass.run(first + second) == pass.run(first).run(second),
    decreases second.len(),
{
    if second.len() == 0 {
        assert(first + second =~= first);
    } else {
        lemma_run_add(pass, first, second.drop_last());
        assert((first + second).drop_last() =~= first + second.drop_last());
        assert((first + second).last() == second.last());
    }
}

/// Binding the attachments of a batch of sprites binds its pipeline and its
/// texture and changes nothing else.
proof fn lemma_run_attach(pass: Pass, batch: BatchView, pipeline: u64)
    requires
        is_sprite_batch(batch, pipeline),
    ensures
        pass.run(batch.attach_commands()) == (Pass {
            pipeline: Some(pipeline),
            texture: Some(batch.texture()),
            ..pass
        }),
{
    let commands = batch.attach_commands();
    reveal_with_fuel(Pass::run, 3);
    assert(commands.len() == 2);
    assert(commands.last() == batch.attachments[1].spec_attach());
    assert(commands.drop_last().last() == batch.attachments[0].spec_attach());
    assert(commands.drop_last().drop_last().len() == 0);
}

/// With the quad bound, a batch of sprites renders validly, and what it
/// renders is one draw of its own instances with its own pipeline and
/// texture, or nothing if it has no instances. The quad stays bound.
pub proof fn lemma_batch_renders(pass: Pass, batch: BatchView, pipeline: u64)
    requires
        is_sprite_batch(batch, pipeline),
        batch.count() <= u32::MAX,
        pass.vertices,
        pass.indices,
    ensures
        pass.run(batch.draw_commands()).valid == pass.valid,
        pass.run(batch.draw_commands()).vertices,
        pass.run(batch.draw_commands()).indices,
        pass.run(batch.draw_commands()).drawn == pass.drawn + batch.rendered(pipeline),
{
    if batch.count() == 0 {
        assert(pass.drawn + batch.rendered(pipeline) =~= pass.drawn);
    } else {
        let allocate = if batch.outgrown() {
            seq![CommandView::Allocate { label: batch.label, size: batch.required() as u64 }]
        } else {
            Seq::empty()
        };
        let upload = seq![CommandView::Upload { label: batch.label, instances: batch.instances }];
        let attach = batch.attach_commands();
        let bind = seq![CommandView::SetInstances { slot: INSTANCE_SLOT, label: batch.label }];
        let draw = seq![
            CommandView::DrawIndexed { indices: Quad::NUM_INDICES, count: batch.count() as u32 },
        ];
        assert(batch.draw_commands() =~= allocate + upload + attach + bind + draw);
        reveal_with_fuel(Pass::run, 2);
        let allocated = pass.run(allocate);
        assert(allocated.vertices && allocated.indices && allocated.valid == pass.valid
            && allocated.drawn == pass.drawn) by {
            if batch.outgrown() {
                assert(allocate.drop_last() =~= Seq::empty());
            }
        }
        let uploaded = allocated.run(upload);
        assert(uploaded == (Pass {
            contents: allocated.contents.insert(batch.label, batch.instances),
            ..allocated
        })) by {
            assert(upload.drop_last() =~= Seq::empty());
        }
        let attached = uploaded.run(attach);
        lemma_run_attach(uploaded, batch, pipeline);
        let bound = attached.run(bind);
        assert(bound == (Pass { instances: Some(batch.label), ..attached })) by {
            assert(bind.drop_last() =~= Seq::empty());
        }
        let done = bound.run(draw);
        assert(done == bound.step(draw[0])) by {
            assert(draw.drop_last() =~= Seq::empty());
        }
        assert(bound.can_draw(Quad::NUM_INDICES, batch.count() as u32));
        lemma_run_add(pass, allocate, upload);
        lemma_run_add(pass, allocate + upload, attach);
        lemma_run_add(pass, allocate + upload + attach, bind);
        lemma_run_add(pass, allocate + upload + attach + bind, draw);
        assert(pass.run(batch.draw_commands()) == done);
        assert(done.drawn =~= pass.drawn + batch.rendered(pipeline));
    }
}

/// With the quad bound, batches of sprites render validly one after the
/// other, each what it renders alone.
pub proof fn lemma_batches_render(pass: Pass, batcher: BatcherView, pipeline: u64)
    requires
        forall|i: int|
            0 <= i < batcher.batches.len() ==> is_sprite_batch(
                #[trigger] batcher.batches[i],
                pipeline,
            ) && batcher.batches[i].count() <= u32::MAX,
        pass.vertices,
        pass.indices,
    ensures
        pass.run(batcher.draw_commands()).valid == pass.valid,
        pass.run(batcher.draw_commands()).vertices,
        pass.run(batcher.draw_commands()).indices,
        pass.run(batcher.draw_commands()).drawn == pass.drawn + batcher.rendered(pipeline),
    decreases batcher.batches.len(),
{
    if batcher.batches.len() == 0 {
        assert(pass.drawn + batcher.rendered(pipeline) =~= pass.drawn);
    } else {
        let rest = BatcherView { batches: batcher.batches.drop_last() };
        let last = batcher.batches.last();
        assert forall|i: int| 0 <= i < rest.batches.len() implies is_sprite_batch(
            #[trigger] rest.batches[i],
            pipeline,
        ) && rest.batches[i].count() <= u32::MAX by {
            assert(rest.batches[i] == batcher.batches[i]);
        }
        assert(last == batcher.batches[batcher.batches.len() - 1]);
        lemma_batches_render(pass, rest, pipeline);
        lemma_batch_renders(pass.run(rest.draw_commands()), last, pipeline);
        lemma_run_add(pass, rest.draw_commands(), last.draw_commands());
        assert(pass.run(batcher.draw_commands()).drawn =~= pass.drawn + batcher.rendered(
            pipeline,
        ));
    }
}

/// Commands that release buffers draw nothing and spoil nothing.
proof fn lemma_releases_render_nothing(pass: Pass, commands: Seq<CommandView>)
    requires
        forall|i: int| 0 <= i < commands.len() ==> (#[trigger] commands[i]) is Release,
    ensures
        pass.run(commands).valid == pass.valid,
        pass.run(commands).drawn == pass.drawn,
    decreases commands.len(),
{
    if commands.len() > 0 {
        lemma_releases_render_nothing(pass, commands.drop_last());
        assert(commands.last() == commands[commands.len() - 1]);
    }
}

/// A frame renders its batches: whatever was bound before, the commands of
/// a frame make no draw call before the quad, a pipeline, a texture and
/// the instances to draw are bound, and they draw each batch that has
/// instances once, in order, with the sprite pipeline, the batch's texture
/// and the batch's instances in the order in which they were added.
pub proof fn lemma_frame_renders(pass: Pass, draw: DrawView)
    requires
        draw.sprites_only(),
        forall|i: int|
            0 <= i < draw.batcher.batches.len() ==> (#[trigger] draw.batcher.batches[i]).count()
                <= u32::MAX,
    ensures
        pass.run(draw.frame_commands()).valid == pass.valid,
        pass.run(draw.frame_commands()).drawn == pass.drawn + draw.batcher.rendered(
            draw.pipeline,
        ),
{
    let quad = Quad::spec_apply();
    let draws = draw.batcher.draw_commands();
    let releases = draw.batcher.written().release_commands();
    let ready = pass.run(quad);
    assert(ready == (Pass { vertices: true, indices: true, ..pass })) by {
        reveal_with_fuel(Pass::run, 3);
        assert(quad.drop_last().drop_last() =~= Seq::empty());
    }
    lemma_batches_render(ready, draw.batcher, draw.pipeline);
    lemma_releases_render_nothing(ready.run(draws), releases);
    lemma_run_add(pass, quad, draws);
    lemma_run_add(pass, quad + draws, releases);
}

} // verus!
