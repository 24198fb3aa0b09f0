use gltf_scene::pixel::convert_image_to_bgra8;
use gltf_scene::{ImageData, PixelFormat, SceneError};

fn image(format: PixelFormat, width: u32, height: u32, pixels: Vec<u8>) -> ImageData {
    ImageData { width, height, format, pixels }
}

#[test]
fn r8_replicates_to_gray() {
    let out = convert_image_to_bgra8(&image(PixelFormat::R8, 2, 1, vec![10, 200])).unwrap();
    assert_eq!(out, vec![10, 10, 10, 255, 200, 200, 200, 255]);
}

#[test]
fn r8g8_keeps_channels_in_place() {
    let out = convert_image_to_bgra8(&image(PixelFormat::R8G8, 1, 1, vec![40, 50])).unwrap();
    // red 40, green 50, blue zero, opaque
    assert_eq!(out, vec![0, 50, 40, 255]);
}

#[test]
fn rgb_swaps_into_bgra() {
    let out =
        convert_image_to_bgra8(&image(PixelFormat::R8G8B8, 2, 1, vec![1, 2, 3, 4, 5, 6])).unwrap();
    assert_eq!(out, vec![3, 2, 1, 255, 6, 5, 4, 255]);
}

#[test]
fn rgba_swaps_and_keeps_alpha() {
    let out =
        convert_image_to_bgra8(&image(PixelFormat::R8G8B8A8, 1, 1, vec![1, 2, 3, 128])).unwrap();
    assert_eq!(out, vec![3, 2, 1, 128]);
}

#[test]
fn bgr_gains_alpha_only() {
    let out = convert_image_to_bgra8(&image(PixelFormat::B8G8R8, 1, 1, vec![9, 8, 7])).unwrap();
    assert_eq!(out, vec![9, 8, 7, 255]);
}

#[test]
fn bgra_is_copied_unchanged() {
    let out =
        convert_image_to_bgra8(&image(PixelFormat::B8G8R8A8, 1, 1, vec![9, 8, 7, 6])).unwrap();
    assert_eq!(out, vec![9, 8, 7, 6]);
}

#[test]
fn unsupported_format_is_fatal() {
    assert_eq!(
        convert_image_to_bgra8(&image(PixelFormat::Other, 1, 1, vec![0, 0])),
        Err(SceneError::UnsupportedPixelFormat)
    );
}

#[test]
fn size_mismatch_is_fatal() {
    assert_eq!(
        convert_image_to_bgra8(&image(PixelFormat::R8G8B8, 2, 2, vec![0; 11])),
        Err(SceneError::ImageSizeMismatch)
    );
}

#[test]
fn two_by_two_image_converts_row_major() {
    let pixels = vec![
        10, 11, 12, //
        20, 21, 22, //
        30, 31, 32, //
        40, 41, 42,
    ];
    let out = convert_image_to_bgra8(&image(PixelFormat::R8G8B8, 2, 2, pixels)).unwrap();
    assert_eq!(out.len(), 16);
    assert_eq!(&out[0..4], &[12, 11, 10, 255]);
    assert_eq!(&out[12..16], &[42, 41, 40, 255]);
}
