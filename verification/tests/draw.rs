use mink::attachment::DrawAttachment;
use mink::camera::Camera;
use mink::color::Color;
use mink::command::Command;
use mink::draw::Draw;
use mink::instance::DrawInstance;
use mink::surface::SurfaceExtent;
use mink::texture::Texture;

const PIPELINE: u64 = 42;

fn texture(path: &str, binding: u64) -> Texture {
    Texture { path: path.to_string(), binding, size: [16, 16] }
}

fn model(tag: f32) -> [[u32; 4]; 4] {
    let mut model = [[0u32; 4]; 4];
    for i in 0..4 {
        model[i][i] = 1.0f32.to_bits();
    }
    model[3][0] = tag.to_bits();
    model
}

fn plain(tag: f32) -> DrawInstance {
    DrawInstance { camera: Camera::new(), model: model(tag), color: Color::white() }
}

fn quad() -> Vec<Command> {
    vec![Command::SetQuadVertices { slot: 0 }, Command::SetQuadIndices]
}

#[test]
fn new_draw_has_no_batches_and_the_default_camera() {
    let draw = Draw::new(PIPELINE);
    assert_eq!(draw.batcher().len(), 0);
    assert_eq!(draw.camera(), Camera::new());
}

#[test]
fn submit_of_an_empty_frame_binds_the_quad_only() {
    let mut draw = Draw::new(PIPELINE);
    assert_eq!(draw.submit(), quad());
    assert_eq!(draw.batcher().len(), 0);
}

#[test]
fn sprite_resolves_pipeline_then_texture() {
    let mut draw = Draw::new(PIPELINE);
    let created = draw.sprite(&texture("a.png", 5), model(1.0), None);
    assert_eq!(created, Some(Command::Allocate { label: "a.png".to_string(), size: 80 }));
    let batch = draw.batcher().get("a.png").unwrap();
    assert_eq!(
        batch.attachments(),
        &vec![DrawAttachment::Pipeline(PIPELINE), DrawAttachment::Texture(5)]
    );
    assert_eq!(batch.instances(), &vec![plain(1.0)]);
}

#[test]
fn sprite_without_tint_is_white() {
    let mut draw = Draw::new(PIPELINE);
    draw.sprite(&texture("a.png", 5), model(1.0), None);
    let one = 1.0f32.to_bits();
    assert_eq!(
        draw.batcher().get("a.png").unwrap().instances()[0].color,
        Color { r: one, g: one, b: one, a: one }
    );
}

#[test]
fn sprite_keeps_its_tint() {
    let mut draw = Draw::new(PIPELINE);
    let tint = Color::from_rgba(0.25f32.to_bits(), 0.5f32.to_bits(), 0.75f32.to_bits(), 0.5f32.to_bits());
    draw.sprite(&texture("a.png", 5), model(1.0), Some(tint));
    assert_eq!(draw.batcher().get("a.png").unwrap().instances()[0].color, tint);
}

#[test]
fn sprite_is_seen_through_the_camera_that_is_set() {
    let mut draw = Draw::new(PIPELINE);
    let camera = Camera {
        size: Some([320.0f32.to_bits(), 240.0f32.to_bits()]),
        position: [10.0f32.to_bits(), 20.0f32.to_bits()],
        rotation: 0.5f32.to_bits(),
        zoom: 2.0f32.to_bits(),
    };
    draw.sprite(&texture("a.png", 5), model(1.0), None);
    draw.set_camera(Some(&camera));
    assert_eq!(draw.camera(), camera);
    draw.sprite(&texture("a.png", 5), model(2.0), None);
    draw.set_camera(None);
    assert_eq!(draw.camera(), Camera::new());
    draw.sprite(&texture("a.png", 5), model(3.0), None);
    let cameras: Vec<Camera> = draw
        .batcher()
        .get("a.png")
        .unwrap()
        .instances()
        .iter()
        .map(|instance| instance.camera)
        .collect();
    assert_eq!(cameras, vec![Camera::new(), camera, Camera::new()]);
}

#[test]
fn begin_frame_goes_back_to_the_default_camera() {
    let mut draw = Draw::new(PIPELINE);
    let camera = Camera { zoom: 4.0f32.to_bits(), ..Camera::new() };
    draw.set_camera(Some(&camera));
    draw.sprite(&texture("a.png", 5), model(1.0), None);
    draw.begin_frame();
    assert_eq!(draw.camera(), Camera::new());
    // The frame's batches are not touched.
    assert_eq!(draw.batcher().get("a.png").unwrap().count(), 1);
}

#[test]
fn one_sprite_then_ten_idle_frames() {
    let mut draw = Draw::new(PIPELINE);
    let a = texture("A", 5);

    // Frame 1: one sprite, one batch, one instance drawn.
    draw.begin_frame();
    let created = draw.sprite(&a, model(1.0), None);
    assert_eq!(created, Some(Command::Allocate { label: "A".to_string(), size: 80 }));
    let commands = draw.submit();
    assert_eq!(
        commands,
        vec![
            Command::SetQuadVertices { slot: 0 },
            Command::SetQuadIndices,
            Command::Upload { label: "A".to_string(), instances: vec![plain(1.0)] },
            Command::SetPipeline { pipeline: PIPELINE },
            Command::SetBindGroup { index: 0, group: 5 },
            Command::SetInstances { slot: 1, label: "A".to_string() },
            Command::DrawIndexed { indices: 6, count: 1 },
        ]
    );
    assert_eq!(draw.batcher().len(), 1);
    assert_eq!(draw.batcher().get("A").unwrap().lifetime(), 10);

    // Frames 2 to 10: nothing is drawn; the batch stays and runs down.
    for frame in 2..=10 {
        draw.begin_frame();
        assert_eq!(draw.submit(), quad());
        assert_eq!(draw.batcher().len(), 1);
        assert_eq!(draw.batcher().get("A").unwrap().lifetime(), 11 - frame);
        assert_eq!(draw.batcher().get("A").unwrap().size(), 80);
    }
    assert_eq!(draw.batcher().get("A").unwrap().lifetime(), 1);

    // Frame 11: the write takes the lifetime to zero and the cleanup that
    // follows drops the batch.
    draw.begin_frame();
    assert_eq!(
        draw.submit(),
        vec![
            Command::SetQuadVertices { slot: 0 },
            Command::SetQuadIndices,
            Command::Release { label: "A".to_string() },
        ]
    );
    assert_eq!(draw.batcher().len(), 0);
    assert!(draw.batcher().get("A").is_none());
}

#[test]
fn batch_survives_nine_idle_frames_and_not_the_tenth() {
    let mut draw = Draw::new(PIPELINE);
    draw.sprite(&texture("A", 5), model(1.0), None);
    draw.submit();
    for _ in 0..9 {
        draw.submit();
    }
    assert!(draw.batcher().get("A").is_some());
    draw.submit();
    assert!(draw.batcher().get("A").is_none());
}

#[test]
fn sprite_after_five_idle_frames_resets_the_lifetime() {
    let mut draw = Draw::new(PIPELINE);
    let a = texture("A", 5);
    draw.sprite(&a, model(1.0), None);
    draw.submit();
    for _ in 0..5 {
        draw.submit();
    }
    assert_eq!(draw.batcher().get("A").unwrap().lifetime(), 5);
    let created = draw.sprite(&a, model(2.0), None);
    assert_eq!(created, None);
    draw.submit();
    assert_eq!(draw.batcher().get("A").unwrap().lifetime(), 10);
}

#[test]
fn two_textures_interleaved_make_two_batches() {
    let a = texture("A", 5);
    let b = texture("B", 6);
    for order in [[0, 1, 0, 1, 1], [1, 1, 1, 0, 0], [0, 0, 1, 1, 1]] {
        let mut draw = Draw::new(PIPELINE);
        for (tag, which) in order.iter().enumerate() {
            let texture = if *which == 0 { &a } else { &b };
            draw.sprite(texture, model(tag as f32), None);
        }
        assert_eq!(draw.batcher().len(), 2);
        assert_eq!(draw.batcher().get("A").unwrap().count(), 2);
        assert_eq!(draw.batcher().get("B").unwrap().count(), 3);
        let commands = draw.submit();
        let draws: Vec<&Command> = commands
            .iter()
            .filter(|command| matches!(command, Command::DrawIndexed { .. }))
            .collect();
        assert_eq!(draws.len(), 2);
        assert_eq!(draw.batcher().len(), 2);
    }
}

#[test]
fn frame_with_more_sprites_than_ever_allocates_once() {
    let mut draw = Draw::new(PIPELINE);
    let a = texture("A", 5);
    let mut allocations = Vec::new();
    for count in [1, 3, 2, 3, 4] {
        for tag in 0..count {
            if let Some(command) = draw.sprite(&a, model(tag as f32), None) {
                allocations.push(command);
            }
        }
        for command in draw.submit() {
            if matches!(command, Command::Allocate { .. }) {
                allocations.push(command);
            }
        }
    }
    assert_eq!(
        allocations,
        vec![
            Command::Allocate { label: "A".to_string(), size: 80 },
            Command::Allocate { label: "A".to_string(), size: 240 },
            Command::Allocate { label: "A".to_string(), size: 320 },
        ]
    );
    assert_eq!(draw.batcher().get("A").unwrap().size(), 320);
}

#[test]
fn resize_between_frames_leaves_the_batches_alone() {
    let mut draw = Draw::new(PIPELINE);
    let mut extent = SurfaceExtent { width: 800, height: 600 };
    let a = texture("A", 5);
    draw.sprite(&a, model(1.0), None);
    draw.sprite(&a, model(2.0), None);
    draw.submit();
    draw.sprite(&a, model(3.0), None);

    let instances = draw.batcher().get("A").unwrap().instances().clone();
    let size = draw.batcher().get("A").unwrap().size();
    let lifetime = draw.batcher().get("A").unwrap().lifetime();

    assert!(extent.resize([1280, 720]));
    assert_eq!(extent, SurfaceExtent { width: 1280, height: 720 });

    // Nothing is uploaded, grown or aged by the resize; the next submit is
    // what it would have been.
    let batch = draw.batcher().get("A").unwrap();
    assert_eq!(batch.instances(), &instances);
    assert_eq!(batch.size(), size);
    assert_eq!(batch.lifetime(), lifetime);
    assert_eq!(
        draw.submit(),
        vec![
            Command::SetQuadVertices { slot: 0 },
            Command::SetQuadIndices,
            Command::Upload { label: "A".to_string(), instances: vec![plain(3.0)] },
            Command::SetPipeline { pipeline: PIPELINE },
            Command::SetBindGroup { index: 0, group: 5 },
            Command::SetInstances { slot: 1, label: "A".to_string() },
            Command::DrawIndexed { indices: 6, count: 1 },
        ]
    );
}

#[test]
fn release_comes_after_all_draws() {
    let mut draw = Draw::new(PIPELINE);
    let a = texture("A", 5);
    let b = texture("B", 6);
    draw.sprite(&a, model(1.0), None);
    draw.submit();
    for _ in 0..9 {
        draw.sprite(&b, model(2.0), None);
        draw.submit();
    }
    draw.sprite(&b, model(3.0), None);
    let commands = draw.submit();
    assert_eq!(
        commands,
        vec![
            Command::SetQuadVertices { slot: 0 },
            Command::SetQuadIndices,
            Command::Upload { label: "B".to_string(), instances: vec![plain(3.0)] },
            Command::SetPipeline { pipeline: PIPELINE },
            Command::SetBindGroup { index: 0, group: 6 },
            Command::SetInstances { slot: 1, label: "B".to_string() },
            Command::DrawIndexed { indices: 6, count: 1 },
            Command::Release { label: "A".to_string() },
        ]
    );
    assert_eq!(draw.batcher().len(), 1);
}

#[test]
fn every_sprite_is_uploaded_and_drawn_once() {
    let mut draw = Draw::new(PIPELINE);
    let textures = [texture("A", 1), texture("B", 2), texture("C", 3)];
    let order = [0usize, 1, 0, 2, 2, 1, 0, 2, 2];
    for (tag, which) in order.iter().enumerate() {
        draw.sprite(&textures[*which], model(tag as f32), None);
    }
    let commands = draw.submit();

    let mut uploaded = Vec::new();
    let mut drawn = 0;
    for command in &commands {
        match command {
            Command::Upload { instances, .. } => uploaded.extend(instances.iter().copied()),
            Command::DrawIndexed { count, .. } => drawn += *count,
            _ => {}
        }
    }
    assert_eq!(drawn as usize, order.len());
    // Batch after batch in order of first use, call order within a batch.
    let expected: Vec<DrawInstance> =
        [0.0f32, 2.0, 6.0, 1.0, 5.0, 3.0, 4.0, 7.0, 8.0].iter().map(|tag| plain(*tag)).collect();
    assert_eq!(uploaded, expected);

    // Nothing is left to draw.
    assert_eq!(draw.submit(), quad());
}
