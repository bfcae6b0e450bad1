use std::collections::HashMap;

use mink::command::Command;
use mink::draw::Draw;
use mink::texture::Texture;

/// The instance buffers as a caller keeps them: the size of each, by label.
struct Buffers {
    sizes: HashMap<String, u64>,
    bound: Option<String>,
}

impl Buffers {
    fn new() -> Self {
        Buffers { sizes: HashMap::new(), bound: None }
    }

    fn carry_out(&mut self, command: &Command) {
        match command {
            Command::Allocate { label, size } => {
                self.sizes.insert(label.clone(), *size);
            }
            Command::Upload { label, instances } => {
                let size = self.sizes.get(label).expect("upload to a buffer that is not there");
                assert!(80 * instances.len() as u64 <= *size, "upload does not fit");
                assert!(!instances.is_empty());
            }
            Command::Release { label } => {
                self.sizes.remove(label).expect("release of a buffer that is not there");
            }
            Command::SetInstances { slot, label } => {
                assert_eq!(*slot, 1);
                assert!(self.sizes.contains_key(label), "bound buffer is not there");
                self.bound = Some(label.clone());
            }
            Command::DrawIndexed { indices, count } => {
                assert_eq!(*indices, 6);
                let label = self.bound.take().expect("draw without instances bound");
                assert!(80 * *count as u64 <= self.sizes[&label], "draw reads past the buffer");
            }
            Command::SetPipeline { .. }
            | Command::SetBindGroup { .. }
            | Command::SetQuadVertices { .. }
            | Command::SetQuadIndices => {}
        }
    }

    fn in_step(&self, draw: &Draw) {
        assert_eq!(self.sizes.len(), draw.batcher().len());
        for batch in draw.batcher().batches() {
            assert_eq!(self.sizes.get(batch.label()), Some(&batch.size()));
        }
    }
}

fn next(state: &mut u64) -> u64 {
    *state = state.wrapping_mul(6364136223846793005).wrapping_add(1442695040888963407);
    *state >> 33
}

#[test]
fn commands_always_find_their_buffer_and_uploads_fit() {
    let textures: Vec<Texture> = (0..6u64)
        .map(|k| Texture { path: format!("texture-{k}"), binding: k, size: [8, 8] })
        .collect();
    let mut draw = Draw::new(0);
    let mut buffers = Buffers::new();
    let mut state = 42u64;
    for frame in 0..400 {
        draw.begin_frame();
        // Long quiet stretches let batches run out; busy ones make them grow.
        let sprites = if (frame / 25) % 2 == 0 { next(&mut state) % 12 } else { next(&mut state) % 2 };
        for _ in 0..sprites {
            let texture = &textures[(next(&mut state) % 6) as usize];
            if let Some(command) = draw.sprite(texture, [[0; 4]; 4], None) {
                buffers.carry_out(&command);
            }
            buffers.in_step(&draw);
        }
        for command in draw.submit() {
            buffers.carry_out(&command);
        }
        buffers.in_step(&draw);
    }
}

#[test]
fn release_follows_the_last_use_of_a_buffer() {
    let texture = Texture { path: "a".to_string(), binding: 1, size: [8, 8] };
    let mut draw = Draw::new(0);
    let mut buffers = Buffers::new();
    let mut released = 0;
    for frame in 0..40 {
        if frame % 13 == 0 {
            if let Some(command) = draw.sprite(&texture, [[0; 4]; 4], None) {
                buffers.carry_out(&command);
            }
        }
        for command in draw.submit() {
            if matches!(command, Command::Release { .. }) {
                released += 1;
            }
            buffers.carry_out(&command);
        }
        buffers.in_step(&draw);
    }
    // Drawn in frames 0, 13, 26 and 39; dropped ten idle frames after each
    // of the first three.
    assert_eq!(released, 3);
    assert_eq!(draw.batcher().len(), 1);
}

/// A render pass as a caller carries it out: what is bound, what each
/// buffer holds, and the draw calls that come of it.
#[derive(Default)]
struct Pass {
    contents: HashMap<String, Vec<mink::instance::DrawInstance>>,
    vertices: bool,
    indices: bool,
    instances: Option<String>,
    pipeline: Option<u64>,
    texture: Option<u64>,
    drawn: Vec<(u64, u64, Vec<mink::instance::DrawInstance>)>,
}

impl Pass {
    fn carry_out(&mut self, command: Command) {
        match command {
            Command::Allocate { label, .. } | Command::Release { label } => {
                self.contents.remove(&label);
                if self.instances.as_ref() == Some(&label) {
                    self.instances = None;
                }
            }
            Command::Upload { label, instances } => {
                self.contents.insert(label, instances);
            }
            Command::SetPipeline { pipeline } => self.pipeline = Some(pipeline),
            Command::SetBindGroup { index, group } => {
                assert_eq!(index, 0);
                self.texture = Some(group);
            }
            Command::SetQuadVertices { slot } => {
                assert_eq!(slot, 0);
                self.vertices = true;
            }
            Command::SetQuadIndices => self.indices = true,
            Command::SetInstances { slot, label } => {
                assert_eq!(slot, 1);
                self.instances = Some(label);
            }
            Command::DrawIndexed { indices, count } => {
                assert!(self.vertices && self.indices, "quad is not bound");
                assert_eq!(indices, 6);
                let pipeline = self.pipeline.expect("no pipeline bound");
                let texture = self.texture.expect("no texture bound");
                let label = self.instances.as_ref().expect("no instances bound");
                let instances = self.contents[label].clone();
                assert_eq!(instances.len(), count as usize);
                self.drawn.push((pipeline, texture, instances));
            }
        }
    }
}

fn tagged(tag: u32) -> [[u32; 4]; 4] {
    let mut model = [[0u32; 4]; 4];
    model[0][3] = tag;
    model
}

#[test]
fn frame_draws_each_batch_once_with_its_own_texture_and_instances() {
    let textures: Vec<Texture> = (0..4u64)
        .map(|k| Texture { path: format!("texture-{k}"), binding: 100 + k, size: [8, 8] })
        .collect();
    let mut draw = Draw::new(9);
    let mut state = 7u64;
    for _ in 0..60 {
        draw.begin_frame();
        let sprites = next(&mut state) % 10;
        for tag in 0..sprites {
            draw.sprite(&textures[(next(&mut state) % 4) as usize], tagged(tag as u32), None);
        }
        // What the frame is to draw: every batch that has instances, in
        // order, with the texture it was made for.
        let expected: Vec<(u64, u64, Vec<mink::instance::DrawInstance>)> = draw
            .batcher()
            .batches()
            .iter()
            .filter(|batch| batch.count() > 0)
            .map(|batch| {
                let texture = textures.iter().find(|t| &t.path == batch.label()).unwrap();
                (9, texture.binding, batch.instances().clone())
            })
            .collect();
        // Each frame is a pass of its own: nothing is bound at its start.
        let mut pass = Pass::default();
        for command in draw.submit() {
            pass.carry_out(command);
        }
        assert_eq!(pass.drawn, expected);
    }
}
