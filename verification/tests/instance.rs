use mink::camera::Camera;
use mink::color::Color;
use mink::instance::{pack, DrawInstance, RawInstance, INSTANCE_BYTES, INSTANCE_WORDS};
use mink::layout::{VertexAttribute, VertexFormat, VertexStepMode};

/// The bit patterns of a matrix, row by row.
fn bits(matrix: glam::Mat4) -> [[u32; 4]; 4] {
    matrix.transpose().to_cols_array_2d().map(|row| row.map(f32::to_bits))
}

fn read(bytes: &[u8], word: usize) -> f32 {
    f32::from_ne_bytes([
        bytes[4 * word],
        bytes[4 * word + 1],
        bytes[4 * word + 2],
        bytes[4 * word + 3],
    ])
}

fn placed(position: [f32; 2], rotation: f32, size: [f32; 2], tint: [f32; 4]) -> RawInstance {
    let model = glam::Mat4::from_translation(glam::Vec3::new(position[0], position[1], 0.0))
        * glam::Mat4::from_rotation_z(rotation)
        * glam::Mat4::from_scale(glam::Vec3::new(size[0], size[1], 1.0));
    RawInstance { matrix: bits(model), color: tint.map(f32::to_bits) }
}

#[test]
fn instance_is_twenty_words_of_four_bytes() {
    assert_eq!(INSTANCE_WORDS, 20);
    assert_eq!(INSTANCE_BYTES, 80);
    assert_eq!(INSTANCE_BYTES as usize, 4 * INSTANCE_WORDS);
}

#[test]
fn pack_of_nothing_is_empty() {
    assert_eq!(pack(&[]), Vec::<u8>::new());
}

#[test]
fn pack_writes_words_in_memory_order() {
    let mut matrix = [[0u32; 4]; 4];
    for row in 0..4 {
        for column in 0..4 {
            matrix[row][column] = 0x0102_0304 + (4 * row + column) as u32 * 0x1010_1010;
        }
    }
    let color = [0xA1B2_C3D4, 0x0000_0001, 0xFFFF_FFFF, 0x8000_0000];
    let bytes = pack(&[RawInstance { matrix, color }]);
    let mut expected = Vec::new();
    for row in 0..4 {
        for column in 0..4 {
            expected.extend_from_slice(&matrix[row][column].to_ne_bytes());
        }
    }
    for channel in color {
        expected.extend_from_slice(&channel.to_ne_bytes());
    }
    assert_eq!(bytes.len(), 80);
    assert_eq!(bytes, expected);
    if 1u16.to_ne_bytes() == [1, 0] {
        assert_eq!(&bytes[0..4], &[0x04, 0x03, 0x02, 0x01]);
        assert_eq!(&bytes[64..68], &[0xD4, 0xC3, 0xB2, 0xA1]);
        assert_eq!(&bytes[76..80], &[0x00, 0x00, 0x00, 0x80]);
    }
}

#[test]
fn pack_puts_each_instance_at_its_own_eighty_bytes() {
    let instances: Vec<RawInstance> = (0..5u32)
        .map(|k| RawInstance { matrix: [[k; 4]; 4], color: [k + 100; 4] })
        .collect();
    let bytes = pack(&instances);
    assert_eq!(bytes.len(), 400);
    for (k, instance) in instances.iter().enumerate() {
        let slot = &bytes[80 * k..80 * (k + 1)];
        assert_eq!(slot, pack(&[*instance]).as_slice());
        for word in 0..16 {
            assert_eq!(slot[4 * word..4 * word + 4], (k as u32).to_ne_bytes());
        }
        for word in 16..20 {
            assert_eq!(slot[4 * word..4 * word + 4], (k as u32 + 100).to_ne_bytes());
        }
    }
}

#[test]
fn packed_bytes_read_back_as_translate_rotate_scale() {
    let cases = [
        ([0.0f32, 0.0], 0.0f32, [1.0f32, 1.0], [1.0f32, 1.0, 1.0, 1.0]),
        ([12.5, -7.25], 0.0, [32.0, 16.0], [1.0, 0.5, 0.25, 1.0]),
        ([-3.0, 4.0], std::f32::consts::FRAC_PI_2, [2.0, 3.0], [0.0, 0.0, 0.0, 0.5]),
        ([100.0, 200.0], 1.0, [64.0, 64.0], [0.2, 0.4, 0.6, 0.8]),
        ([0.5, 0.5], -2.5, [0.125, 8.0], [1.0, 0.0, 1.0, 0.0]),
    ];
    let instances: Vec<RawInstance> = cases
        .iter()
        .map(|(position, rotation, size, tint)| placed(*position, *rotation, *size, *tint))
        .collect();
    let bytes = pack(&instances);
    assert_eq!(bytes.len(), 80 * cases.len());
    for (k, (position, rotation, size, tint)) in cases.iter().enumerate() {
        let (sin, cos) = rotation.sin_cos();
        // translate(position) * rotate(rotation) * scale(size), row by row.
        let expected = [
            [size[0] * cos, -size[1] * sin, 0.0, position[0]],
            [size[0] * sin, size[1] * cos, 0.0, position[1]],
            [0.0, 0.0, 1.0, 0.0],
            [0.0, 0.0, 0.0, 1.0],
        ];
        for row in 0..4 {
            for column in 0..4 {
                let got = read(&bytes, 20 * k + 4 * row + column);
                assert!(
                    (got - expected[row][column]).abs() <= 1e-5 * expected[row][column].abs().max(1.0),
                    "instance {k}, row {row}, column {column}: {got} != {}",
                    expected[row][column]
                );
            }
        }
        for channel in 0..4 {
            assert_eq!(read(&bytes, 20 * k + 16 + channel), tint[channel]);
        }
    }
}

#[test]
fn into_raw_takes_the_transform_and_the_tint() {
    let tint = Color::from_rgba(0.1f32.to_bits(), 0.2f32.to_bits(), 0.3f32.to_bits(), 0.4f32.to_bits());
    let instance = DrawInstance {
        camera: Camera::new(),
        model: bits(glam::Mat4::from_scale(glam::Vec3::new(2.0, 2.0, 1.0))),
        color: tint,
    };
    let transform = bits(glam::Mat4::from_translation(glam::Vec3::new(1.0, 2.0, 3.0)));
    let raw = instance.into_raw(transform);
    assert_eq!(raw.matrix, transform);
    assert_eq!(
        raw.color,
        [0.1f32.to_bits(), 0.2f32.to_bits(), 0.3f32.to_bits(), 0.4f32.to_bits()]
    );
}

#[test]
fn instance_layout_is_five_vectors_at_locations_two_to_six() {
    let layout = RawInstance::buffer_layout();
    assert_eq!(layout.array_stride, 80);
    assert_eq!(layout.step_mode, VertexStepMode::Instance);
    assert_eq!(
        layout.attributes,
        vec![
            VertexAttribute { format: VertexFormat::Float32x4, offset: 0, shader_location: 2 },
            VertexAttribute { format: VertexFormat::Float32x4, offset: 16, shader_location: 3 },
            VertexAttribute { format: VertexFormat::Float32x4, offset: 32, shader_location: 4 },
            VertexAttribute { format: VertexFormat::Float32x4, offset: 48, shader_location: 5 },
            VertexAttribute { format: VertexFormat::Float32x4, offset: 64, shader_location: 6 },
        ]
    );
}

#[test]
fn instance_layout_covers_the_stride_without_gaps() {
    let layout = RawInstance::buffer_layout();
    let mut end = 0;
    for attribute in &layout.attributes {
        assert_eq!(attribute.offset, end);
        end += attribute.format.size();
    }
    assert_eq!(end, layout.array_stride);
}

#[test]
fn formats_have_their_sizes() {
    assert_eq!(VertexFormat::Float32x2.size(), 8);
    assert_eq!(VertexFormat::Float32x4.size(), 16);
}
