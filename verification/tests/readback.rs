use mcm_render::error::{RenderError, Stage};
use mcm_render::layout::FrameLayout;
use mcm_render::readback::{quantize, read_image, word_at};
use mcm_render::schedule::{Action, Scheduler};

fn texel(red: f32, green: f32, blue: f32, bounces: f32) -> Vec<u8> {
    let mut bytes = Vec::new();
    for value in [red, green, blue, bounces] {
        bytes.extend_from_slice(&value.to_bits().to_le_bytes());
    }
    bytes
}

fn expected_level(value: f32) -> u8 {
    if value.is_nan() {
        return 0;
    }
    let scaled = (value as f64) * 255.0 + 0.5;
    let rounded = scaled.floor();
    if rounded < 0.0 {
        0
    } else if rounded > 255.0 {
        255
    } else {
        rounded as u8
    }
}

#[test]
fn radiance_one_is_white_and_zero_is_black() {
    assert_eq!(quantize(1.0f32.to_bits()), 255);
    assert_eq!(quantize(0.0f32.to_bits()), 0);
}

#[test]
fn radiance_out_of_range_is_clamped() {
    assert_eq!(quantize(1.2f32.to_bits()), 255);
    assert_eq!(quantize(2.0f32.to_bits()), 255);
    assert_eq!(quantize(1.0e30f32.to_bits()), 255);
    assert_eq!(quantize(f32::MAX.to_bits()), 255);
    assert_eq!(quantize(f32::INFINITY.to_bits()), 255);
    assert_eq!(quantize((-0.2f32).to_bits()), 0);
    assert_eq!(quantize((-1.0f32).to_bits()), 0);
    assert_eq!(quantize((-300.0f32).to_bits()), 0);
    assert_eq!(quantize(f32::MIN.to_bits()), 0);
    assert_eq!(quantize(f32::NEG_INFINITY.to_bits()), 0);
    assert_eq!(quantize((-0.0f32).to_bits()), 0);
}

#[test]
fn radiance_that_is_not_a_number_is_black() {
    assert_eq!(quantize(f32::NAN.to_bits()), 0);
    assert_eq!(quantize(0x7FC0_0001), 0);
    assert_eq!(quantize(0xFFFF_FFFF), 0);
    assert_eq!(quantize(0x7F80_0001), 0);
}

#[test]
fn radiance_is_rounded_to_the_nearest_level() {
    assert_eq!(quantize(0.5f32.to_bits()), 128);
    assert_eq!(quantize(0.25f32.to_bits()), 64);
    assert_eq!(quantize(0.75f32.to_bits()), 191);
    assert_eq!(quantize(0.1f32.to_bits()), 26);
    assert_eq!(quantize(0.001f32.to_bits()), 0);
    assert_eq!(quantize(0.002f32.to_bits()), 1);
    assert_eq!(quantize(0.998f32.to_bits()), 254);
    assert_eq!(quantize(0x3F7F_FFFF), 255);
    assert_eq!(quantize(f32::MIN_POSITIVE.to_bits()), 0);
    assert_eq!(quantize(1), 0);
}

#[test]
fn each_level_is_reached_from_its_own_radiance() {
    for level in 0..=255u32 {
        let radiance = level as f32 / 255.0;
        assert_eq!(quantize(radiance.to_bits()), level as u8);
    }
}

#[test]
fn quantize_agrees_with_exact_arithmetic_on_a_sweep_of_patterns() {
    let mut bits: u32 = 0;
    loop {
        assert_eq!(quantize(bits), expected_level(f32::from_bits(bits)), "bits {:#x}", bits);
        match bits.checked_add(7919) {
            Some(next) => bits = next,
            None => break,
        }
    }
}

#[test]
fn quantize_agrees_with_exact_arithmetic_around_the_level_boundaries() {
    for level in 0..255u32 {
        let boundary = ((level as f64 + 0.5) / 255.0) as f32;
        let centre = boundary.to_bits();
        for bits in (centre - 4)..=(centre + 4) {
            assert_eq!(quantize(bits), expected_level(f32::from_bits(bits)), "bits {:#x}", bits);
        }
    }
}

#[test]
fn words_are_read_in_little_endian_order() {
    let bytes = vec![0x78, 0x56, 0x34, 0x12, 0x00, 0x00, 0x80, 0x3F];
    assert_eq!(word_at(&bytes, 0), 0x1234_5678);
    assert_eq!(word_at(&bytes, 1), 1.0f32.to_bits());
}

#[test]
fn padding_columns_are_stripped() {
    let layout = FrameLayout::with_alignment(3, 2, 4).unwrap();
    assert_eq!(layout.stride(), 4);
    let mut bytes = Vec::new();
    // row 0
    bytes.extend(texel(1.0, 0.0, 0.0, 7.0));
    bytes.extend(texel(0.0, 1.0, 0.0, 7.0));
    bytes.extend(texel(0.0, 0.0, 1.0, 7.0));
    bytes.extend(texel(1.0, 1.0, 1.0, 1.0)); // padding
    // row 1
    bytes.extend(texel(0.5, 0.25, 0.75, 3.0));
    bytes.extend(texel(1.2, -0.3, f32::NAN, 3.0));
    bytes.extend(texel(0.1, 0.2, 0.3, 3.0));
    bytes.extend(texel(1.0, 1.0, 1.0, 1.0)); // padding
    let image = read_image(&bytes, &layout).unwrap();
    assert_eq!(
        image,
        vec![
            255, 0, 0, 0, 255, 0, 0, 0, 255, //
            128, 64, 191, 255, 0, 0, 26, 51, 77,
        ]
    );
}

#[test]
fn image_has_three_bytes_for_each_logical_pixel() {
    let layout = FrameLayout::new(5, 3).unwrap();
    let bytes = vec![0u8; layout.buffer_bytes() as usize];
    let image = read_image(&bytes, &layout).unwrap();
    assert_eq!(image.len(), 45);
    assert_eq!(image.len(), layout.image_bytes() as usize);
}

#[test]
fn readback_of_the_wrong_size_is_a_resource_error() {
    let layout = FrameLayout::with_alignment(3, 2, 4).unwrap();
    let short = vec![0u8; 127];
    assert_eq!(read_image(&short, &layout), Err(RenderError::Resource(Stage::Finalize)));
    let long = vec![0u8; 129];
    assert_eq!(read_image(&long, &layout), Err(RenderError::Resource(Stage::Finalize)));
    let empty: Vec<u8> = Vec::new();
    assert_eq!(read_image(&empty, &layout), Err(RenderError::Resource(Stage::Finalize)));
}

#[test]
fn reset_without_passes_gives_a_black_image() {
    let layout = FrameLayout::with_alignment(4, 4, 4).unwrap();
    let mut scheduler = Scheduler::new(layout, 0);
    // Two generations of radiance, as an engine would hold them; the reset
    // writes zero radiance into its target.
    let mut generations: Vec<Option<Vec<u8>>> = vec![None, None];
    let mut image = None;
    while let Some(action) = scheduler.next_action() {
        match action {
            Action::Allocate { row_texels, rows } => {
                let size = 16 * row_texels as usize * rows as usize;
                generations = vec![Some(vec![0xAB; size]), Some(vec![0xAB; size])];
            }
            Action::Reset { target } => {
                let size = generations[target].as_ref().unwrap().len();
                generations[target] = Some(vec![0u8; size]);
            }
            Action::Step { .. } => panic!("no pass was asked for"),
            Action::Readback { source, bytes } => {
                let radiance = generations[source].as_ref().unwrap();
                assert_eq!(radiance.len(), bytes as usize);
                image = Some(read_image(radiance, &layout).unwrap());
            }
        }
    }
    assert_eq!(image.unwrap(), vec![0u8; 48]);
}

#[test]
fn transparent_volume_stays_black_over_five_passes() {
    // A medium without density neither absorbs nor scatters: every pass
    // hands the radiance on unchanged.  The stand-in engine below does just
    // that; what is tested is that the schedule reads back the generation
    // that the fifth pass wrote.
    let layout = FrameLayout::with_alignment(4, 4, 4).unwrap();
    let mut scheduler = Scheduler::new(layout, 5);
    let size = layout.buffer_bytes() as usize;
    let mut generations: Vec<Vec<u8>> = vec![vec![0xCD; size], vec![0xCD; size]];
    let mut passes: Vec<u32> = vec![u32::MAX, u32::MAX];
    let mut image = None;
    while let Some(action) = scheduler.next_action() {
        match action {
            Action::Allocate { .. } => {}
            Action::Reset { target } => {
                generations[target] = vec![0u8; size];
                passes[target] = 0;
            }
            Action::Step { index, source, target } => {
                assert_eq!(passes[source], index);
                generations[target] = generations[source].clone();
                passes[target] = index + 1;
            }
            Action::Readback { source, .. } => {
                assert_eq!(source, 1);
                assert_eq!(passes[source], 5);
                image = Some(read_image(&generations[source], &layout).unwrap());
            }
        }
    }
    assert_eq!(image.unwrap(), vec![0u8; 48]);
}

#[test]
fn brighter_radiance_never_gets_a_smaller_byte() {
    let mut previous = quantize((-2.0f32).to_bits());
    let mut value = -2.0f32;
    while value <= 2.0 {
        let level = quantize(value.to_bits());
        assert!(previous <= level, "at {}", value);
        previous = level;
        value += 0.000_37;
    }
    assert_eq!(previous, 255);
}

#[test]
fn padding_and_the_fourth_word_do_not_show_in_the_image() {
    let layout = FrameLayout::with_alignment(2, 2, 4).unwrap();
    let mut plain = Vec::new();
    let mut noisy = Vec::new();
    for row in 0..2 {
        for column in 0..4 {
            let radiance = [0.1 * row as f32 + 0.2 * column as f32, 0.5, 0.9];
            if column < 2 {
                plain.extend(texel(radiance[0], radiance[1], radiance[2], 0.0));
                noisy.extend(texel(radiance[0], radiance[1], radiance[2], 42.0));
            } else {
                plain.extend(texel(0.0, 0.0, 0.0, 0.0));
                noisy.extend(texel(f32::NAN, 7.0, -3.0, 1.0));
            }
        }
    }
    assert_ne!(plain, noisy);
    assert_eq!(read_image(&plain, &layout), read_image(&noisy, &layout));
}
