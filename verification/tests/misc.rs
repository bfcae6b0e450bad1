use mink::attachment::DrawAttachment;
use mink::camera::Camera;
use mink::color::Color;
use mink::command::Command;
use mink::surface::{Recovery, SurfaceError, SurfaceExtent};
use mink::texture::Texture;

#[test]
fn white_is_one_in_every_channel() {
    assert_eq!(Color::white().as_array().map(f32::from_bits), [1.0, 1.0, 1.0, 1.0]);
}

#[test]
fn rgb_is_opaque() {
    let color = Color::from_rgb(0.1f32.to_bits(), 0.2f32.to_bits(), 0.3f32.to_bits());
    assert_eq!(color.as_array().map(f32::from_bits), [0.1, 0.2, 0.3, 1.0]);
}

#[test]
fn rgba_keeps_channel_order() {
    let color = Color::from_rgba(1, 2, 3, 4);
    assert_eq!(color, Color { r: 1, g: 2, b: 3, a: 4 });
    assert_eq!(color.as_array(), [1, 2, 3, 4]);
}

#[test]
fn default_camera_is_centred_unrotated_and_unzoomed() {
    let camera = Camera::new();
    assert_eq!(camera.size, None);
    assert_eq!(camera.position.map(f32::from_bits), [0.0, 0.0]);
    assert_eq!(f32::from_bits(camera.rotation), 0.0);
    assert_eq!(f32::from_bits(camera.zoom), 1.0);
}

#[test]
fn pipeline_attachment_sets_the_pipeline() {
    assert_eq!(DrawAttachment::Pipeline(3).attach(), Command::SetPipeline { pipeline: 3 });
}

#[test]
fn texture_attachment_binds_group_zero() {
    assert_eq!(
        DrawAttachment::Texture(4).attach(),
        Command::SetBindGroup { index: 0, group: 4 }
    );
}

#[test]
fn texture_clone_is_equal() {
    let texture = Texture { path: "sprites/hero.png".to_string(), binding: 11, size: [64, 32] };
    assert_eq!(texture.clone(), texture);
}

#[test]
fn stale_surface_is_reconfigured() {
    assert_eq!(SurfaceError::Lost.recovery(), Recovery::Reconfigure);
    assert_eq!(SurfaceError::Outdated.recovery(), Recovery::Reconfigure);
}

#[test]
fn timeout_is_passed_over() {
    assert_eq!(SurfaceError::Timeout.recovery(), Recovery::Continue);
}

#[test]
fn device_failure_ends_the_loop() {
    assert_eq!(SurfaceError::OutOfMemory.recovery(), Recovery::Exit);
    assert_eq!(SurfaceError::Other.recovery(), Recovery::Exit);
}

#[test]
fn reconfigure_at_the_present_extent_is_a_rebuild() {
    let mut extent = SurfaceExtent { width: 640, height: 480 };
    assert!(extent.resize([extent.width, extent.height]));
    assert_eq!(extent, SurfaceExtent { width: 640, height: 480 });
}

#[test]
fn camera_extent_is_its_own_or_else_the_viewport() {
    let viewport = [800.0f32.to_bits(), 600.0f32.to_bits()];
    let own = [320.0f32.to_bits(), 240.0f32.to_bits()];
    assert_eq!(Camera::new().extent(viewport), viewport);
    assert_eq!(Camera { size: Some(own), ..Camera::new() }.extent(viewport), own);
}

#[test]
fn zoom_is_clamped_like_a_maximum_with_the_smallest_zoom() {
    let smallest = 0.00000001f32;
    assert_eq!(mink::camera::MIN_ZOOM, smallest.to_bits());
    let zooms = [
        1.0f32,
        2.0,
        0.5,
        1e-7,
        2e-8,
        smallest,
        9e-9,
        1e-20,
        f32::MIN_POSITIVE,
        1e-45,
        0.0,
        -0.0,
        -1e-9,
        -1.0,
        -1e30,
        1e30,
        f32::MAX,
        f32::INFINITY,
        f32::NEG_INFINITY,
        f32::NAN,
        -f32::NAN,
    ];
    for zoom in zooms {
        let camera = Camera { zoom: zoom.to_bits(), ..Camera::new() };
        assert_eq!(
            camera.clamped_zoom(),
            zoom.max(smallest).to_bits(),
            "zoom {zoom}"
        );
    }
}

#[test]
fn clamped_zoom_is_never_zero() {
    for bits in [0u32, 1, 0x8000_0000, 0xFFFF_FFFF, 0x7FC0_0000, 0x3F80_0000, 0x322B_CC76] {
        let camera = Camera { zoom: bits, ..Camera::new() };
        let zoom = f32::from_bits(camera.clamped_zoom());
        assert!(zoom >= 0.00000001);
    }
}

/// The part of the world a camera shows on a surface of the given size: the
/// extent it is built for, divided by its zoom.
fn visible(camera: &Camera, viewport: [f32; 2]) -> [f32; 2] {
    let extent = camera.extent(viewport.map(f32::to_bits)).map(f32::from_bits);
    let zoom = f32::from_bits(camera.clamped_zoom());
    [extent[0] * (1.0 / zoom), extent[1] * (1.0 / zoom)]
}

#[test]
fn zoom_two_halves_the_visible_extent() {
    let viewport = [800.0, 600.0];
    let plain = Camera::new();
    let zoomed = Camera { zoom: 2.0f32.to_bits(), ..Camera::new() };
    assert_eq!(visible(&plain, viewport), [800.0, 600.0]);
    assert_eq!(visible(&zoomed, viewport), [400.0, 300.0]);

    let own = Some([320.0f32.to_bits(), 200.0f32.to_bits()]);
    let plain = Camera { size: own, ..Camera::new() };
    let zoomed = Camera { size: own, zoom: 2.0f32.to_bits(), ..Camera::new() };
    assert_eq!(visible(&plain, viewport), [320.0, 200.0]);
    assert_eq!(visible(&zoomed, viewport), [160.0, 100.0]);
}

#[test]
fn visible_extent_is_finite_for_any_zoom() {
    for zoom in [0.0f32, -0.0, -3.0, 1e-30, f32::NAN, f32::NEG_INFINITY] {
        let camera = Camera { zoom: zoom.to_bits(), ..Camera::new() };
        let [width, height] = visible(&camera, [800.0, 600.0]);
        assert!(width.is_finite() && height.is_finite());
        assert!(width > 0.0 && height > 0.0);
    }
}
