use mediachat_native::picture::{
    cut_circle, decode_circular, decode_image, frame_picture, is_outside_disc, is_whole, picture,
    unpadded, Color, Raster,
};
use mediachat_native::seconds::Seconds;
use mediachat_native::types::VideoFrame;

fn png(width: u32, height: u32, pixel: impl Fn(u32, u32) -> [u8; 4]) -> Vec<u8> {
    let image = image::RgbaImage::from_fn(width, height, |x, y| image::Rgba(pixel(x, y)));
    let mut out = std::io::Cursor::new(Vec::new());
    image.write_to(&mut out, image::ImageFormat::Png).unwrap();
    out.into_inner()
}

fn outside_by_floats(x: u32, y: u32, size: u32) -> bool {
    let c = size as f32 / 2.0;
    let dx = x as f32 - c;
    let dy = y as f32 - c;
    dx * dx + dy * dy > c * c
}

fn color(r: u8, g: u8, b: u8, a: u8) -> Color {
    Color { r, g, b, a }
}

#[test]
fn image_is_decoded_pixel_by_pixel() {
    let data = png(5, 3, |x, y| [x as u8 * 40, y as u8 * 90, 7, 255]);
    let image = decode_image(&data).unwrap();
    assert_eq!((image.width, image.height, image.pixels.len()), (5, 3, 15));
    for y in 0..3usize {
        for x in 0..5usize {
            assert_eq!(image.pixels[y * 5 + x], color(x as u8 * 40, y as u8 * 90, 7, 255));
        }
    }
}

#[test]
fn bytes_that_are_no_image_give_nothing() {
    assert!(decode_image(b"no picture").is_none());
    assert!(decode_circular(b"no picture").is_none());
    assert!(decode_image(&[]).is_none());
    let mut cut = png(4, 4, |_, _| [1, 2, 3, 255]);
    cut.truncate(cut.len() / 2);
    assert!(decode_image(&cut).is_none());
}

#[test]
fn translucent_colors_are_premultiplied() {
    let data = png(3, 1, |x, _| [200, 100, 50, [0, 128, 255][x as usize]]);
    let image = decode_image(&data).unwrap();
    assert_eq!(image.pixels[0], color(0, 0, 0, 0));
    let half = egui::Color32::from_rgba_unmultiplied(200, 100, 50, 128);
    assert_eq!(image.pixels[1], color(half.r(), half.g(), half.b(), 128));
    assert!(image.pixels[1].r < 200);
    assert_eq!(image.pixels[2], color(200, 100, 50, 255));
}

#[test]
fn avatar_is_the_centre_square_cut_to_a_disc() {
    for (width, height) in [(9u32, 6u32), (6, 9), (7, 7), (10, 3), (1, 4)] {
        let data = png(width, height, |x, y| [x as u8, y as u8, 99, 255]);
        let avatar = decode_circular(&data).unwrap();
        let size = width.min(height);
        assert_eq!((avatar.width, avatar.height), (size as usize, size as usize));
        for y in 0..size {
            for x in 0..size {
                let got = avatar.pixels[(y * size + x) as usize];
                if outside_by_floats(x, y, size) {
                    assert_eq!(got, color(0, 0, 0, 0));
                } else {
                    let (left, top) = ((width - size) / 2, (height - size) / 2);
                    assert_eq!(got, color((x + left) as u8, (y + top) as u8, 99, 255));
                }
            }
        }
    }
}

#[test]
fn avatar_agrees_with_cropping_before_conversion() {
    // Sixteen bits a channel: the order of cropping and conversion does not matter.
    let wide = image::ImageBuffer::from_fn(8, 5, |x, y| {
        image::Rgb([(x * 8000) as u16, (y * 9000 + 37) as u16, 12345u16])
    });
    let wide = image::DynamicImage::ImageRgb16(wide);
    let mut out = std::io::Cursor::new(Vec::new());
    wide.write_to(&mut out, image::ImageFormat::Png).unwrap();
    let avatar = decode_circular(out.get_ref()).unwrap();
    let square =
        wide.resize_to_fill(5, 5, image::imageops::FilterType::Lanczos3).to_rgba8();
    for (i, p) in square.pixels().enumerate() {
        let (x, y) = (i as u32 % 5, i as u32 / 5);
        if !outside_by_floats(x, y, 5) {
            assert_eq!(avatar.pixels[i], color(p[0], p[1], p[2], p[3]));
        }
    }
}

#[test]
fn disc_test_agrees_with_single_precision() {
    for size in 0..40u32 {
        for y in 0..size {
            for x in 0..size {
                assert_eq!(is_outside_disc(x, y, size), outside_by_floats(x, y, size));
            }
        }
    }
    for size in [2896u32, 2897, 5001, 11585, 40_000, 16_777_217, 50_000_001, u32::MAX] {
        let mut v: u64 = 1;
        for _ in 0..20_000 {
            v = v.wrapping_mul(6364136223846793005).wrapping_add(1442695040888963407);
            let x = ((v >> 33) % size as u64) as u32;
            let y = ((v >> 13) % size as u64) as u32;
            assert_eq!(is_outside_disc(x, y, size), outside_by_floats(x, y, size));
        }
    }
}

#[test]
fn disc_test_rounds_on_large_pictures() {
    // Near the rim of a large picture single precision and the exact disc differ.
    let size: u32 = 11585;
    let mut differing = 0;
    for y in 0..size {
        let dy = 2 * y as i64 - size as i64;
        let half = (((size as i64).pow(2) - dy * dy) as f64).sqrt() as i64;
        let x = ((size as i64 - half) / 2).max(0);
        for x in [x.max(1) - 1, x, x + 1] {
            let dx = 2 * x - size as i64;
            let exact = dx * dx + dy * dy > (size as i64).pow(2);
            let single = is_outside_disc(x as u32, y, size);
            assert_eq!(single, outside_by_floats(x as u32, y, size));
            if exact != single {
                differing += 1;
            }
        }
    }
    assert!(differing > 0);
}

#[test]
fn disc_is_exact_on_small_pictures() {
    for size in [1u32, 2, 3, 10, 72, 500, 2896, 4095, 4096, 8190] {
        for k in 0..size {
            let (x, y) = (k as i64, (k as i64 * 31) % size as i64);
            let s = size as i64;
            let exact = (2 * x - s).pow(2) + (2 * y - s).pow(2) > s * s;
            assert_eq!(is_outside_disc(x as u32, y as u32, size), exact);
        }
    }
}

#[test]
fn disc_is_exact_up_to_its_rim() {
    for size in [2897u32, 4095, 4096, 4098, 8190] {
        let s = size as i64;
        for y in 0..size {
            let dy = 2 * y as i64 - s;
            let left = (s - ((s * s - dy * dy) as f64).sqrt() as i64) / 2;
            for x in left - 3..=left + 3 {
                if 0 <= x && x < s {
                    let exact = (2 * x - s).pow(2) + dy * dy > s * s;
                    assert_eq!(is_outside_disc(x as u32, y, size), exact);
                }
            }
        }
    }
    // One pixel more, odd or even, and the rim is off.
    assert!(!is_outside_disc(0, 2049, 4097));
    assert!(!is_outside_disc(0, 4097, 8192));
}

#[test]
fn padding_is_taken_out() {
    let plane: Vec<u8> = (0..36).collect();
    let rows = unpadded(&plane, 12, 2, 3);
    assert_eq!(rows[..8], plane[..8]);
    assert_eq!(rows[8..16], plane[12..20]);
    assert_eq!(rows[16..], plane[24..32]);
    assert_eq!(unpadded(&plane, 12, 3, 3), plane);
    assert_eq!(unpadded(&plane, 12, 3, 2), plane[..24]);
    assert!(unpadded(&plane, 12, 0, 3).is_empty());
    assert!(unpadded(&[], 0, 0, 9).is_empty());
    let data = unpadded(&plane, 12, 2, 3);
    let frame = VideoFrame { width: 2, height: 3, data, pts_secs: Seconds { bits: 0 } };
    assert!(is_whole(&frame));
}

#[test]
fn cutting_only_touches_alpha_outside() {
    let rgba: Vec<u8> = (0..4 * 36).map(|i| i as u8 | 1).collect();
    let mut raster = Raster { width: 6, height: 6, rgba: rgba.clone() };
    cut_circle(&mut raster);
    assert_eq!((raster.width, raster.height), (6, 6));
    for i in 0..rgba.len() {
        let (x, y) = ((i as u32 / 4) % 6, i as u32 / 4 / 6);
        let expected = if i % 4 == 3 && outside_by_floats(x, y, 6) { 0 } else { rgba[i] };
        assert_eq!(raster.rgba[i], expected);
    }
}

#[test]
fn empty_pictures_stay_empty() {
    let mut raster = Raster { width: 0, height: 0, rgba: Vec::new() };
    cut_circle(&mut raster);
    let image = picture(&raster);
    assert_eq!((image.width, image.height, image.pixels.len()), (0, 0, 0));
}

#[test]
fn frames_become_pictures() {
    let frame = VideoFrame {
        width: 2,
        height: 1,
        data: vec![1, 2, 3, 255, 9, 9, 9, 0],
        pts_secs: Seconds { bits: 0 },
    };
    assert!(is_whole(&frame));
    let image = frame_picture(frame);
    assert_eq!(image.pixels, vec![color(1, 2, 3, 255), color(0, 0, 0, 0)]);
    let padded = VideoFrame { width: 1, height: 1, data: vec![0; 8], pts_secs: Seconds { bits: 0 } };
    assert!(!is_whole(&padded));
    let odd = VideoFrame { width: 1, height: 1, data: vec![0; 5], pts_secs: Seconds { bits: 0 } };
    assert!(!is_whole(&odd));
}
