use mink::attachment::DrawAttachment;
use mink::batch::{DrawBatch, Flush};
use mink::camera::Camera;
use mink::color::Color;
use mink::command::Command;
use mink::instance::DrawInstance;

fn instance(tag: u32) -> DrawInstance {
    let mut model = [[0u32; 4]; 4];
    model[3][0] = tag;
    DrawInstance { camera: Camera::new(), model, color: Color::white() }
}

fn attachments() -> Vec<DrawAttachment> {
    vec![DrawAttachment::Pipeline(1), DrawAttachment::Texture(2)]
}

#[test]
fn new_batch_holds_its_instances_exactly() {
    let batch = DrawBatch::new("tiles", attachments(), vec![instance(1), instance(2), instance(3)]);
    assert_eq!(batch.label(), "tiles");
    assert_eq!(batch.attachments(), &attachments());
    assert_eq!(batch.count(), 3);
    assert_eq!(batch.size(), 240);
    assert_eq!(batch.lifetime(), DrawBatch::LIFETIME);
    assert_eq!(batch.lifetime(), 10);
    assert!(!batch.expired());
}

#[test]
fn new_batch_may_be_empty() {
    let batch = DrawBatch::new("none", Vec::new(), Vec::new());
    assert_eq!(batch.count(), 0);
    assert_eq!(batch.size(), 0);
    assert_eq!(batch.lifetime(), 10);
    assert!(batch.instances().is_empty());
}

#[test]
fn allocation_names_label_and_capacity() {
    let batch = DrawBatch::new("tiles", attachments(), vec![instance(1), instance(2)]);
    assert_eq!(batch.allocation(), Command::Allocate { label: "tiles".to_string(), size: 160 });
}

#[test]
fn add_appends_in_call_order() {
    let mut batch = DrawBatch::new("tiles", attachments(), vec![instance(1)]);
    batch.add(instance(2));
    batch.add(instance(3));
    assert_eq!(batch.count(), 3);
    assert_eq!(batch.instances(), &vec![instance(1), instance(2), instance(3)]);
    // Adding does not touch the buffer; only a write grows it.
    assert_eq!(batch.size(), 80);
}

#[test]
fn write_hands_out_instances_and_empties_the_batch() {
    let mut batch = DrawBatch::new("tiles", attachments(), vec![instance(1), instance(2)]);
    let flush = batch.write();
    assert_eq!(
        flush,
        Flush { count: 2, allocate: None, instances: vec![instance(1), instance(2)] }
    );
    assert_eq!(batch.count(), 0);
    assert!(batch.instances().is_empty());
    assert_eq!(batch.size(), 160);
    assert_eq!(batch.lifetime(), 10);
}

#[test]
fn write_grows_the_buffer_to_exactly_what_is_needed() {
    let mut batch = DrawBatch::new("tiles", attachments(), vec![instance(1)]);
    batch.add(instance(2));
    batch.add(instance(3));
    let flush = batch.write();
    assert_eq!(flush.count, 3);
    assert_eq!(flush.allocate, Some(240));
    assert_eq!(batch.size(), 240);
}

#[test]
fn buffer_never_shrinks() {
    let mut batch = DrawBatch::new("tiles", attachments(), Vec::new());
    let mut seen = Vec::new();
    for count in [3usize, 1, 0, 5, 2, 5, 0, 0, 6] {
        for tag in 0..count {
            batch.add(instance(tag as u32));
        }
        let before = batch.size();
        let flush = batch.write();
        assert!(batch.size() >= before);
        assert_eq!(flush.count as usize, count);
        seen.push((batch.size(), flush.allocate));
    }
    assert_eq!(
        seen,
        vec![
            (240, Some(240)),
            (240, None),
            (240, None),
            (400, Some(400)),
            (400, None),
            (400, None),
            (400, None),
            (400, None),
            (480, Some(480)),
        ]
    );
}

#[test]
fn capacity_is_eighty_bytes_per_instance_of_the_fullest_write() {
    let mut batch = DrawBatch::new("tiles", attachments(), vec![instance(0)]);
    let counts = [1usize, 4, 2, 7, 3];
    let mut peak = 0;
    for (frame, count) in counts.iter().enumerate() {
        // The first write also sees the instance the batch was made for.
        let waiting = if frame == 0 { 1 } else { 0 };
        for tag in 0..*count {
            batch.add(instance(tag as u32));
        }
        peak = peak.max(waiting + count);
        batch.write();
        assert_eq!(batch.size(), 80 * peak as u64);
    }
    assert_eq!(batch.size(), 560);
}

#[test]
fn idle_write_counts_the_lifetime_down_to_zero() {
    let mut batch = DrawBatch::new("tiles", attachments(), vec![instance(1)]);
    batch.write();
    for expected in (0..10).rev() {
        assert!(!batch.expired());
        let flush = batch.write();
        assert_eq!(flush, Flush { count: 0, allocate: None, instances: Vec::new() });
        assert_eq!(batch.lifetime(), expected);
    }
    assert!(batch.expired());
}

#[test]
fn lifetime_stays_at_zero() {
    let mut batch = DrawBatch::new("tiles", attachments(), Vec::new());
    for _ in 0..25 {
        batch.write();
    }
    assert_eq!(batch.lifetime(), 0);
    assert!(batch.expired());
    assert_eq!(batch.size(), 0);
}

#[test]
fn batch_is_live_after_nine_idle_writes_and_expired_after_ten() {
    let mut batch = DrawBatch::new("tiles", attachments(), vec![instance(1)]);
    batch.write();
    for _ in 0..9 {
        batch.write();
    }
    assert_eq!(batch.lifetime(), 1);
    assert!(!batch.expired());
    batch.write();
    assert!(batch.expired());
}

#[test]
fn instance_after_five_idle_writes_resets_the_lifetime() {
    let mut batch = DrawBatch::new("tiles", attachments(), vec![instance(1)]);
    batch.write();
    for _ in 0..5 {
        batch.write();
    }
    assert_eq!(batch.lifetime(), 5);
    batch.add(instance(2));
    batch.write();
    assert_eq!(batch.lifetime(), 10);
}

#[test]
fn instance_revives_an_expired_batch() {
    let mut batch = DrawBatch::new("tiles", attachments(), Vec::new());
    for _ in 0..10 {
        batch.write();
    }
    assert!(batch.expired());
    batch.add(instance(1));
    batch.write();
    assert_eq!(batch.lifetime(), 10);
}

#[test]
fn draw_of_an_empty_batch_issues_nothing() {
    let mut batch = DrawBatch::new("tiles", attachments(), Vec::new());
    let mut commands = vec![Command::SetQuadIndices];
    batch.draw(&mut commands);
    assert_eq!(commands, vec![Command::SetQuadIndices]);
    assert_eq!(batch.lifetime(), 9);
}

#[test]
fn draw_uploads_binds_in_order_and_draws() {
    let mut batch = DrawBatch::new("tiles", attachments(), vec![instance(1), instance(2)]);
    let mut commands = Vec::new();
    batch.draw(&mut commands);
    assert_eq!(
        commands,
        vec![
            Command::Upload {
                label: "tiles".to_string(),
                instances: vec![instance(1), instance(2)],
            },
            Command::SetPipeline { pipeline: 1 },
            Command::SetBindGroup { index: 0, group: 2 },
            Command::SetInstances { slot: 1, label: "tiles".to_string() },
            Command::DrawIndexed { indices: 6, count: 2 },
        ]
    );
    assert_eq!(batch.count(), 0);
}

#[test]
fn draw_allocates_before_uploading_when_outgrown() {
    let mut batch = DrawBatch::new("tiles", vec![DrawAttachment::Texture(9)], vec![instance(1)]);
    batch.add(instance(2));
    let mut commands = Vec::new();
    batch.draw(&mut commands);
    assert_eq!(
        commands,
        vec![
            Command::Allocate { label: "tiles".to_string(), size: 160 },
            Command::Upload {
                label: "tiles".to_string(),
                instances: vec![instance(1), instance(2)],
            },
            Command::SetBindGroup { index: 0, group: 9 },
            Command::SetInstances { slot: 1, label: "tiles".to_string() },
            Command::DrawIndexed { indices: 6, count: 2 },
        ]
    );
}
