//! The frame: draw calls come in through [`Draw::sprite`], and
//! [`Draw::submit`] turns what has gathered into the commands of one frame.

use vstd::prelude::*;
use crate::attachment::DrawAttachment;
use crate::batch::BatchView;
use crate::batcher::{lemma_cleaned_from, Batcher, BatcherView};
use crate::camera::Camera;
use crate::color::Color;
use crate::command::{Command, CommandView};
use crate::instance::DrawInstance;
use crate::quad::Quad;
use crate::texture::{Texture, TextureView};

verus! {

/// The state of a [`Draw`] as contracts speak of it.
pub struct DrawView {
    /// The handle of the sprite pipeline.
    pub pipeline: u64,
    /// The camera used while none is set.
    pub default_camera: Camera,
    /// The camera set for the draw calls to come, if any.
    pub current_camera: Option<Camera>,
    /// The batches.
    pub batcher: BatcherView,
}

/// Whether `batch` is a batch of sprites drawn with `pipeline`: before it
/// draws it binds that pipeline and then the bind group of one texture.
pub open spec fn is_sprite_batch(batch: BatchView, pipeline: u64) -> bool {
    &&& batch.attachments.len() == 2
    &&& batch.attachments[0] == DrawAttachment::Pipeline(pipeline)
    &&& batch.attachments[1] is Texture
}

impl DrawView {
    /// Every batch is a batch of sprites drawn with the sprite pipeline.
    pub open spec fn sprites_only(self) -> bool {
        forall|i: int|
            0 <= i < self.batcher.batches.len() ==> is_sprite_batch(
                #[trigger] self.batcher.batches[i],
                self.pipeline,
            )
    }

    /// The state of a new `Draw`.
    pub open spec fn new(pipeline: u64) -> DrawView {
        DrawView {
            pipeline,
            default_camera: Camera::spec_new(),
            current_camera: None,
            batcher: BatcherView::empty(),
        }
    }

    /// The camera that the next sprite is drawn through: the one that was
    /// set, or else the default.
    pub open spec fn camera(self) -> Camera {
        match self.current_camera {
            Some(camera) => camera,
            None => self.default_camera,
        }
    }

    /// What a sprite of `texture` binds: the sprite pipeline first, then the
    /// texture's bind group, which is laid out for that pipeline.
    pub open spec fn attachments(self, texture: TextureView) -> Seq<DrawAttachment> {
        seq![DrawAttachment::Pipeline(self.pipeline), DrawAttachment::Texture(texture.binding)]
    }

    /// The instance of one sprite: seen through the active camera, placed by
    /// `model`, tinted with `tint` or else white.
    pub open spec fn instance(self, model: [[u32; 4]; 4], tint: Option<Color>) -> DrawInstance {
        DrawInstance {
            camera: self.camera(),
            model,
            color: match tint {
                Some(color) => color,
                None => Color::spec_white(),
            },
        }
    }

    /// The state after one sprite: its instance has gone to the batch keyed
    /// by the texture's path.
    pub open spec fn drawn(
        self,
        texture: TextureView,
        model: [[u32; 4]; 4],
        tint: Option<Color>,
    ) -> DrawView {
        DrawView {
            batcher: self.batcher.added(
                texture.path,
                self.attachments(texture),
                self.instance(model, tint),
            ),
            ..self
        }
    }

    /// The commands of one frame: the quad is bound once; then each batch
    /// that has instances is uploaded and drawn, in order; then the
    /// buffers of the batches that the frame's writes have left expired are
    /// released.
    pub open spec fn frame_commands(self) -> Seq<CommandView> {
        Quad::spec_apply() + self.batcher.draw_commands()
            + self.batcher.written().release_commands()
    }

    /// The state after a frame has been submitted: every batch has been
    /// written and the expired ones are gone.
    pub open spec fn submitted(self) -> DrawView {
        DrawView { batcher: self.batcher.written().cleaned(), ..self }
    }
}

/// The draw calls of the frame in the making, and the cameras they are seen
/// through.
#[derive(Debug)]
pub struct Draw {
    pipeline: u64,
    default_camera: Camera,
    current_camera: Option<Camera>,
    batcher: Batcher,
}

impl View for Draw {
    type V = DrawView;

    closed spec fn view(&self) -> DrawView {
        DrawView {
            pipeline: self.pipeline,
            default_camera: self.default_camera,
            current_camera: self.current_camera,
            batcher: self.batcher@,
        }
    }
}

impl Draw {
    /// The batcher is well formed and holds nothing but batches of sprites.
    pub closed spec fn wf(&self) -> bool {
        self.batcher.wf() && self@.sprites_only()
    }

    /// What well-formedness says of the view. The laws about whole frames
    /// ask for these; this is where a `Draw` is shown to fulfil them.
    pub proof fn lemma_wf(&self)
        requires
            self.wf(),
        ensures
            self@.batcher.distinct(),
            self@.sprites_only(),
            forall|i: int|
                0 <= i < self@.batcher.batches.len() ==> (
                #[trigger] self@.batcher.batches[i]).count() <= u32::MAX,
    {
        self.batcher.lemma_wf();
    }

    /// A `Draw` without batches that draws sprites with `pipeline`, through
    /// the default camera.
    pub fn new(pipeline: u64) -> (draw: Draw)
        ensures
            draw.wf(),
            draw@ == DrawView::new(pipeline),
    {
        Draw {
            pipeline,
            default_camera: Camera::new(),
            current_camera: None,
            batcher: Batcher::new(),
        }
    }

    /// Starts a frame: a camera set during the last frame no longer
    /// applies.
    pub fn begin_frame(&mut self)
        ensures
            final(self).wf() == old(self).wf(),
            final(self)@ == (DrawView { current_camera: None, ..old(self)@ }),
    {
        self.current_camera = None;
        assert(self@.batcher == old(self)@.batcher);
    }

    /// Sets the camera for the draw calls to come; `None` goes back to the
    /// default camera.
    pub fn set_camera(&mut self, camera: Option<&Camera>)
        ensures
            final(self).wf() == old(self).wf(),
            final(self)@ == (DrawView {
                current_camera: match camera {
                    Some(camera) => Some(*camera),
                    None => None,
                },
                ..old(self)@
            }),
    {
        self.current_camera = match camera {
            Some(camera) => Some(*camera),
            None => None,
        };
        assert(self@.batcher == old(self)@.batcher);
    }

    /// The camera that the next sprite is drawn through.
    pub fn camera(&self) -> (camera: Camera)
        ensures
            camera == self@.camera(),
    {
        match self.current_camera {
            Some(camera) => camera,
            None => self.default_camera,
        }
    }

    /// The batches.
    pub fn batcher(&self) -> (batcher: &Batcher)
        ensures
            batcher@ == self@.batcher,
            self.wf() ==> batcher.wf(),
    {
        &self.batcher
    }

    /// Draws one sprite of `texture`, placed by the model matrix `model` and
    /// tinted with `tint`, white if there is none. The instance goes to the
    /// batch of the texture. If this is the first sprite of the texture
    /// since its batch was last dropped, the command that allocates the
    /// batch's buffer is returned.
    pub fn sprite(
        &mut self,
        texture: &Texture,
        model: [[u32; 4]; 4],
        tint: Option<Color>,
    ) -> (created: Option<Command>)
        requires
            old(self).wf(),
            old(self)@.batcher.contains(texture@.path) ==> old(self)@.batcher.get(
                texture@.path,
            ).count() < u32::MAX,
        ensures
            final(self).wf(),
            final(self)@ == old(self)@.drawn(texture@, model, tint),
            created.deep_view() == old(self)@.batcher.added_command(texture@.path),
    {
        let attachments = [
            DrawAttachment::Pipeline(self.pipeline),
            DrawAttachment::Texture(texture.binding),
        ];
        let instance = DrawInstance {
            camera: self.camera(),
            model,
            color: match tint {
                Some(color) => color,
                None => Color::white(),
            },
        };
        assert(attachments@ =~= old(self)@.attachments(texture@));
        let created = self.batcher.add(texture.path.as_str(), attachments.as_slice(), instance);
        proof {
            let before = old(self)@.batcher;
            assert forall|i: int| 0 <= i < self@.batcher.batches.len() implies is_sprite_batch(
                #[trigger] self@.batcher.batches[i],
                self.pipeline,
            ) by {
                if before.contains(texture@.path) {
                    let k = before.index(texture@.path);
                    assert(0 <= k < before.batches.len() && before.batches[k].label
                        == texture@.path);
                    assert(is_sprite_batch(before.batches[i], self.pipeline));
                } else if i < before.batches.len() {
                    assert(is_sprite_batch(before.batches[i], self.pipeline));
                }
            }
        }
        created
    }

    /// Ends the frame and returns its commands, to be carried out in order
    /// while the frame's render pass is recorded: the quad is bound, every
    /// batch is written and those with instances are drawn, and the batches
    /// that have run out of lifetime are dropped.
    pub fn submit(&mut self) -> (commands: Vec<Command>)
        requires
            old(self).wf(),
        ensures
            final(self).wf(),
            final(self)@ == old(self)@.submitted(),
            commands.deep_view() == old(self)@.frame_commands(),
    {
        let mut commands: Vec<Command> = Vec::new();
        assert(commands.deep_view() =~= Seq::empty());
        Quad::apply(&mut commands);
        self.batcher.write(&mut commands);
        self.batcher.cleanup(&mut commands);
        proof {
            let before = old(self)@.batcher;
            let written = before.written().batches;
            assert forall|k: int| 0 <= k < self@.batcher.batches.len() implies is_sprite_batch(
                #[trigger] self@.batcher.batches[k],
                self.pipeline,
            ) by {
                lemma_cleaned_from(before.written(), k);
                let j = choose|j: int|
                    0 <= j < written.len() && #[trigger] written[j] == self@.batcher.batches[k];
                assert(is_sprite_batch(before.batches[j], self.pipeline));
            }
            assert(commands.deep_view() =~= old(self)@.frame_commands());
        }
        commands
    }
}

} // verus!
