use epaper_dashboard::canvas::{Canvas, Px};
use epaper_dashboard::dithering::{GrayImage, dither};
use epaper_dashboard::encode::{get_buffer_size, rgb_image_to_epd_image};

#[test]
fn dither_thresholds_uniform_tones() {
    let mut img = GrayImage { width: 1, height: 1, data: vec![200u8] };
    dither(&mut img);
    assert_eq!(img.data, vec![255u8]);
    let mut dark = GrayImage { width: 1, height: 1, data: vec![40u8] };
    dither(&mut dark);
    assert_eq!(dark.data, vec![0u8]);
}

#[test]
fn dither_output_is_pure_black_white() {
    let mut img = GrayImage {
        width: 4,
        height: 3,
        data: vec![10, 130, 90, 200, 127, 128, 250, 5, 60, 180, 110, 140],
    };
    dither(&mut img);
    for v in img.data.iter() {
        assert!(*v == 0 || *v == 255);
    }
}

#[test]
fn dither_is_idempotent() {
    let mut img = GrayImage {
        width: 5,
        height: 4,
        data: (0u8..20).map(|k| (k as u32 * 13 % 256) as u8).collect(),
    };
    dither(&mut img);
    let once = img.data.clone();
    dither(&mut img);
    assert_eq!(img.data, once);
}

#[test]
fn dither_carries_error_forward() {
    // A mid gray row snaps the first pixel up and pushes the debt right,
    // so the neighbor falls below the threshold: not a flat result.
    let mut img = GrayImage { width: 4, height: 1, data: vec![128u8; 4] };
    dither(&mut img);
    assert_eq!(img.data, vec![255, 0, 255, 0]);
}

#[test]
fn encode_all_white_pattern() {
    let canvas = Canvas::new_white(16, 4);
    let buf = rgb_image_to_epd_image(&canvas);
    assert_eq!(buf.len(), 2 * 2 * 4);
    for b in buf[..8].iter() {
        assert_eq!(*b, 0xFF);
    }
    for b in buf[8..].iter() {
        assert_eq!(*b, 0x00);
    }
}

#[test]
fn encode_all_black_pattern() {
    let canvas = Canvas::new_filled(16, 4, Px::black());
    let buf = rgb_image_to_epd_image(&canvas);
    for b in buf[..8].iter() {
        assert_eq!(*b, 0x00);
    }
    for b in buf[8..].iter() {
        assert_eq!(*b, 0x00);
    }
}

#[test]
fn encode_all_chromatic_pattern() {
    let canvas = Canvas::new_filled(16, 4, Px::red());
    let buf = rgb_image_to_epd_image(&canvas);
    for b in buf[..8].iter() {
        assert_eq!(*b, 0x00);
    }
    for b in buf[8..].iter() {
        assert_eq!(*b, 0xFF);
    }
}

#[test]
fn encode_maps_unknown_colors_to_white() {
    let canvas = Canvas::new_filled(8, 1, Px { r: 17, g: 230, b: 9 });
    let buf = rgb_image_to_epd_image(&canvas);
    assert_eq!(buf, vec![0xFF, 0x00]);
}

#[test]
fn encode_single_pixel_bits() {
    let mut canvas = Canvas::new_white(8, 1);
    canvas.set(0, 0, Px::black());
    canvas.set(3, 0, Px::red());
    let buf = rgb_image_to_epd_image(&canvas);
    // Black clears bit 7; chromatic clears bit 4 of the first plane and
    // sets it in the second.
    assert_eq!(buf[0], 0b0110_1111);
    assert_eq!(buf[1], 0b0001_0000);
}

#[test]
fn buffer_size_matches_device() {
    assert_eq!(get_buffer_size(), 96000);
}
