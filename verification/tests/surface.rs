use mink::surface::SurfaceExtent;

#[test]
fn resize_replaces_the_extent() {
    let mut extent = SurfaceExtent { width: 800, height: 600 };
    assert!(extent.resize([1024, 768]));
    assert_eq!(extent, SurfaceExtent { width: 1024, height: 768 });
}

#[test]
fn resize_ignores_a_zero_side() {
    let mut extent = SurfaceExtent { width: 800, height: 600 };
    assert!(!extent.resize([0, 768]));
    assert!(!extent.resize([1024, 0]));
    assert!(!extent.resize([0, 0]));
    assert_eq!(extent, SurfaceExtent { width: 800, height: 600 });
}
