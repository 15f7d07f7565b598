use skyplane::pixel_tint::{
    enemy_texture_tint_finished, plane_is_green_pixel, plane_tint_green_pixels_to_red,
    plane_tint_green_pixels_to_red_bgra8, plane_tint_green_pixels_to_red_rgba8,
    plane_tinted_image_copy, PlaneImage, PlaneTextureFormat,
};

#[test]
fn enemy_green_pixel_detection_targets_green_model_pixels() {
    assert!(plane_is_green_pixel(30, 190, 40));
    assert!(!plane_is_green_pixel(190, 190, 40));
    assert!(!plane_is_green_pixel(30, 80, 40));
}

#[test]
fn enemy_texture_tint_recolors_green_rgba_pixels_to_red() {
    let mut image = PlaneImage {
        format: PlaneTextureFormat::Rgba8UnormSrgb,
        data: Some(vec![20, 180, 30, 255, 80, 70, 60, 255]),
    };

    assert_eq!(plane_tint_green_pixels_to_red(&mut image), 1);
    assert_eq!(
        image.data.expect("image should keep cpu data"),
        vec![255, 0, 0, 255, 80, 70, 60, 255]
    );
}

#[test]
fn green_pixel_thresholds_are_inclusive() {
    assert!(plane_is_green_pixel(0, 96, 0));
    assert!(!plane_is_green_pixel(0, 95, 0));
    assert!(plane_is_green_pixel(64, 96, 64));
    assert!(!plane_is_green_pixel(65, 96, 0));
    assert!(!plane_is_green_pixel(0, 96, 65));
    assert!(plane_is_green_pixel(0, 255, 223));
}

#[test]
fn bgra_tint_recolors_green_pixels_to_red_in_bgra_order() {
    let mut data = Some(vec![30, 180, 20, 128, 60, 70, 80, 255]);
    assert_eq!(plane_tint_green_pixels_to_red_bgra8(&mut data), 1);
    assert_eq!(data, Some(vec![0, 0, 255, 128, 60, 70, 80, 255]));
}

#[test]
fn bgra_image_format_uses_bgra_layout() {
    let mut image = PlaneImage {
        format: PlaneTextureFormat::Bgra8Unorm,
        data: Some(vec![30, 180, 20, 9]),
    };
    assert_eq!(plane_tint_green_pixels_to_red(&mut image), 1);
    assert_eq!(image.data, Some(vec![0, 0, 255, 9]));
    assert_eq!(image.format, PlaneTextureFormat::Bgra8Unorm);
}

#[test]
fn tint_without_cpu_data_changes_nothing() {
    let mut data: Option<Vec<u8>> = None;
    assert_eq!(plane_tint_green_pixels_to_red_rgba8(&mut data), 0);
    assert_eq!(data, None);
}

#[test]
fn tint_leaves_other_formats_untouched() {
    let mut image = PlaneImage {
        format: PlaneTextureFormat::Other,
        data: Some(vec![20, 180, 30, 255]),
    };
    assert_eq!(plane_tint_green_pixels_to_red(&mut image), 0);
    assert_eq!(image.data, Some(vec![20, 180, 30, 255]));
}

#[test]
fn tint_ignores_trailing_partial_pixel() {
    let mut data = Some(vec![20, 180, 30, 255, 20, 180, 30]);
    assert_eq!(plane_tint_green_pixels_to_red_rgba8(&mut data), 1);
    assert_eq!(data, Some(vec![255, 0, 0, 255, 20, 180, 30]));
}

#[test]
fn tinting_twice_changes_nothing_more() {
    let mut data = Some(vec![20, 180, 30, 255, 10, 200, 10, 7, 80, 70, 60, 255]);
    assert_eq!(plane_tint_green_pixels_to_red_rgba8(&mut data), 2);
    let once = data.clone();
    assert_eq!(plane_tint_green_pixels_to_red_rgba8(&mut data), 0);
    assert_eq!(data, once);
}

#[test]
fn tinted_copy_is_none_when_no_pixel_is_green() {
    let source = PlaneImage {
        format: PlaneTextureFormat::Rgba8Unorm,
        data: Some(vec![80, 70, 60, 255]),
    };
    assert!(plane_tinted_image_copy(&source).is_none());
    let empty = PlaneImage { format: PlaneTextureFormat::Rgba8Unorm, data: None };
    assert!(plane_tinted_image_copy(&empty).is_none());
}

#[test]
fn tinted_copy_keeps_source_and_recolors_copy() {
    let source = PlaneImage {
        format: PlaneTextureFormat::Rgba8Unorm,
        data: Some(vec![20, 180, 30, 255]),
    };
    let copy = plane_tinted_image_copy(&source).expect("a green pixel should give a copy");
    assert_eq!(copy.format, PlaneTextureFormat::Rgba8Unorm);
    assert_eq!(copy.data, Some(vec![255, 0, 0, 255]));
    assert_eq!(source.data, Some(vec![20, 180, 30, 255]));
}

#[test]
fn enemy_tint_finishes_only_when_materials_are_ready() {
    assert!(!enemy_texture_tint_finished(&[]));
    assert!(!enemy_texture_tint_finished(&[None, None]));
    assert!(enemy_texture_tint_finished(&[None, Some(true)]));
    assert!(!enemy_texture_tint_finished(&[Some(true), Some(false)]));
}
