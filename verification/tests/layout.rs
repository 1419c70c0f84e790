use mcm_render::error::ConfigurationError;
use mcm_render::layout::{padded_stride, FrameLayout};

#[test]
fn stride_is_rounded_up_to_the_alignment() {
    assert_eq!(padded_stride(512, 256), Some(512));
    assert_eq!(padded_stride(513, 256), Some(768));
    assert_eq!(padded_stride(1, 256), Some(256));
    assert_eq!(padded_stride(0, 256), Some(0));
    assert_eq!(padded_stride(5, 8), Some(8));
}

#[test]
fn stride_that_does_not_fit_is_refused() {
    assert_eq!(padded_stride(u32::MAX, 256), None);
    assert_eq!(padded_stride(7, 0), None);
}

#[test]
fn device_layout_pads_rows_to_256_texels() {
    let layout = FrameLayout::new(300, 200).unwrap();
    assert_eq!(layout.width(), 300);
    assert_eq!(layout.height(), 200);
    assert_eq!(layout.stride(), 512);
}

#[test]
fn empty_resolution_is_a_configuration_error() {
    assert_eq!(FrameLayout::new(0, 10), Err(ConfigurationError::EmptyResolution));
    assert_eq!(FrameLayout::new(10, 0), Err(ConfigurationError::EmptyResolution));
}

#[test]
fn oversized_frame_is_a_configuration_error() {
    assert_eq!(FrameLayout::new(65536, 65536), Err(ConfigurationError::FrameTooLarge));
    assert_eq!(FrameLayout::new(u32::MAX, 1), Err(ConfigurationError::FrameTooLarge));
}

#[test]
fn custom_alignment_keeps_the_logical_size() {
    let layout = FrameLayout::with_alignment(5, 3, 8).unwrap();
    assert_eq!(layout.width(), 5);
    assert_eq!(layout.height(), 3);
    assert_eq!(layout.stride(), 8);
    assert_eq!(layout.row_bytes(), 128);
    assert_eq!(layout.buffer_bytes(), 384);
    assert_eq!(layout.image_bytes(), 45);
}

#[test]
fn aligned_width_is_not_padded() {
    let layout = FrameLayout::new(512, 512).unwrap();
    assert_eq!(layout.stride(), 512);
    assert_eq!(layout.buffer_bytes(), 16 * 512 * 512);
    assert_eq!(layout.image_bytes(), 3 * 512 * 512);
}

#[test]
fn largest_frame_that_fits_is_accepted() {
    // 16 * 256 * 1048575 = 4294963200 <= u32::MAX < 16 * 256 * 1048576
    let layout = FrameLayout::new(256, 1_048_575).unwrap();
    assert_eq!(layout.buffer_bytes(), 4_294_963_200);
    assert_eq!(FrameLayout::new(256, 1_048_576), Err(ConfigurationError::FrameTooLarge));
}

#[test]
fn zero_alignment_is_a_configuration_error() {
    assert_eq!(FrameLayout::with_alignment(4, 4, 0), Err(ConfigurationError::FrameTooLarge));
}
