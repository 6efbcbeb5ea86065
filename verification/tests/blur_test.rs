//! Blurring, darkening and cropping pictures.
use cosmic_greeter::blur::fast_box_blur;
use cosmic_greeter::frost::{
    avatar_crop, avatar_pixels, cache_file_name, frost_image, frost_pixels, frosted_handle,
    mask_corners, sharp_handle, thumbnail_size, zone_of, Square, WallpaperImage, Zone,
};

/// Bytes that look like noise.
fn noise(len: usize) -> Vec<u8> {
    let mut state: u32 = 12345;
    let mut bytes = Vec::new();
    for _ in 0..len {
        state = state.wrapping_mul(1664525).wrapping_add(1013904223);
        bytes.push((state >> 24) as u8);
    }
    bytes
}

/// The mean over a window, pixel by pixel, first along rows and then along columns.
fn slow_box_blur(buf: &[u8], width: usize, height: usize, radius: usize) -> Vec<u8> {
    let at = |buf: &[u8], x: i64, y: i64, c: usize| -> u32 {
        let x = x.clamp(0, width as i64 - 1) as usize;
        let y = y.clamp(0, height as i64 - 1) as usize;
        buf[(y * width + x) * 4 + c] as u32
    };
    let r = radius as i64;
    let window = 2 * radius as u32 + 1;
    let mut rows = buf.to_vec();
    let mut out = buf.to_vec();
    for y in 0..height {
        for x in 0..width {
            for c in 0..4 {
                let sum: u32 = (-r..=r).map(|d| at(buf, x as i64 + d, y as i64, c)).sum();
                rows[(y * width + x) * 4 + c] = (sum / window) as u8;
            }
        }
    }
    for y in 0..height {
        for x in 0..width {
            for c in 0..4 {
                let sum: u32 = (-r..=r).map(|d| at(&rows, x as i64, y as i64 + d, c)).sum();
                out[(y * width + x) * 4 + c] = (sum / window) as u8;
            }
        }
    }
    out
}

#[test]
fn blur_is_the_mean_over_rows_and_columns() {
    for (width, height) in [(2, 2), (5, 3), (7, 9), (16, 2)] {
        for radius in [1, 2, 6, 20] {
            let before = noise(width * height * 4);
            let mut buf = before.clone();
            fast_box_blur(&mut buf, width as u32, height as u32, radius as u32);
            assert_eq!(buf, slow_box_blur(&before, width, height, radius));
        }
    }
}

#[test]
fn narrow_pictures_and_no_radius_stay_as_they_are() {
    for (width, height, radius) in [(1, 8, 6), (8, 1, 6), (4, 4, 0)] {
        let before = noise(width * height * 4);
        let mut buf = before.clone();
        fast_box_blur(&mut buf, width as u32, height as u32, radius);
        assert_eq!(buf, before);
    }
}

#[test]
fn blur_keeps_a_uniform_picture() {
    let before: Vec<u8> = [10, 200, 255, 128].repeat(6 * 5);
    let mut buf = before.clone();
    fast_box_blur(&mut buf, 6, 5, 6);
    assert_eq!(buf, before);
}

/// The pixels of every row in the opposite order.
fn mirror(buf: &[u8], width: usize) -> Vec<u8> {
    buf.chunks(4 * width).flat_map(|row| row.chunks(4).rev().flatten().copied()).collect()
}

/// The rows in the opposite order.
fn flip(buf: &[u8], width: usize) -> Vec<u8> {
    buf.chunks(4 * width).rev().flatten().copied().collect()
}

#[test]
fn blur_of_a_mirrored_picture_is_the_mirrored_blur() {
    for (width, height, radius) in [(2, 2, 1), (7, 5, 3), (6, 9, 20), (1, 4, 6), (5, 4, 0)] {
        let blur = |before: &[u8]| {
            let mut buf = before.to_vec();
            fast_box_blur(&mut buf, width as u32, height as u32, radius);
            buf
        };
        let before = noise(width * height * 4);
        assert_eq!(blur(&mirror(&before, width)), mirror(&blur(&before), width));
        assert_eq!(blur(&flip(&before, width)), flip(&blur(&before), width));
    }
}

#[test]
fn blur_leaves_what_follows_the_picture() {
    let before = noise(3 * 3 * 4 + 7);
    let mut buf = before.clone();
    fast_box_blur(&mut buf, 3, 3, 1);
    assert_eq!(buf[36..], before[36..]);
    assert_ne!(buf[..36], before[..36]);
}

#[test]
fn frosting_darkens_every_colour_and_no_alpha() {
    for v in 0..=255u8 {
        let mut rgba = vec![v, v, v, v];
        frost_pixels(&mut rgba, 1, 1);
        let dark = (v as f32 * 0.55) as u8;
        assert_eq!(rgba, vec![dark, dark, dark, v]);
    }
}

#[test]
fn frosting_blurs_three_times_before_it_darkens() {
    let before = noise(9 * 7 * 4);
    let mut expected = before.clone();
    for _ in 0..3 {
        expected = slow_box_blur(&expected, 9, 7, 6);
    }
    for (i, byte) in expected.iter_mut().enumerate() {
        if i % 4 != 3 {
            *byte = (*byte as f32 * 0.55) as u8;
        }
    }
    let mut rgba = before;
    frost_pixels(&mut rgba, 9, 7);
    assert_eq!(rgba, expected);
}

#[test]
fn thumbnails_are_a_quarter_and_never_empty() {
    assert_eq!(thumbnail_size(1920, 1080), (480, 270));
    assert_eq!(thumbnail_size(3, 0), (1, 1));
    assert_eq!(thumbnail_size(7, 9), (1, 2));
}

fn png(width: u32, height: u32, colour: [u8; 4]) -> Vec<u8> {
    let picture = image::RgbaImage::from_pixel(width, height, image::Rgba(colour));
    let mut file = std::io::Cursor::new(Vec::new());
    picture.write_to(&mut file, image::ImageFormat::Png).unwrap();
    file.into_inner()
}

#[test]
fn a_picture_is_frosted_at_a_quarter_of_its_size() {
    let bytes = png(40, 24, [100, 200, 50, 255]);
    match frosted_handle(None, &bytes) {
        (WallpaperImage::Pixels(pixels), keep) => {
            assert!(keep);
            assert_eq!((pixels.width, pixels.height), (10, 6));
            assert_eq!(pixels.rgba, [55, 110, 27, 255].repeat(60));
        }
        _ => panic!("not decoded"),
    }
}

#[test]
fn frosting_an_image_is_frosting_its_thumbnail() {
    let img = image::load_from_memory(&png(40, 24, [8, 80, 160, 255])).unwrap();
    let small = img.resize_exact(10, 6, image::imageops::FilterType::Triangle).to_rgba8();
    let mut expected = small.into_raw();
    frost_pixels(&mut expected, 10, 6);
    let frosted = frost_image(&img);
    assert_eq!((frosted.width, frosted.height), (10, 6));
    assert_eq!(frosted.rgba, expected);
}

#[test]
fn a_cached_picture_is_shown_as_it_is() {
    let bytes = png(8, 8, [1, 2, 3, 255]);
    let cached = vec![9, 9, 9];
    assert_eq!(
        frosted_handle(Some(cached.clone()), &bytes),
        (WallpaperImage::Encoded(cached), false)
    );
}

#[test]
fn narrow_pictures_are_left_alone_whatever_the_radius() {
    for (width, height) in [(0, 0), (1, 1), (1, 7), (7, 1), (0, u32::MAX), (u32::MAX, 1)] {
        for radius in [0, 1, 6, u32::MAX] {
            let mut none: [u8; 0] = [];
            fast_box_blur(&mut none, width, height, radius);
            let mut some = [1, 2, 3, 4, 5];
            fast_box_blur(&mut some, width, height, radius);
            assert_eq!(some, [1, 2, 3, 4, 5]);
        }
    }
}

#[test]
fn what_is_no_picture_is_handed_on() {
    let bytes = vec![1, 2, 3, 4];
    assert_eq!(frosted_handle(None, &bytes), (WallpaperImage::Encoded(bytes.clone()), false));
    assert_eq!(sharp_handle(&bytes), WallpaperImage::Encoded(bytes.clone()));
    assert_eq!(avatar_pixels(&bytes, 16), None);
}

#[test]
fn cache_files_are_named_by_hash() {
    assert_eq!(cache_file_name(0x1f), "frosted_1f.png");
    assert_eq!(cache_file_name(0), "frosted_0.png");
}

#[test]
fn avatars_are_cut_from_the_middle() {
    assert_eq!(avatar_crop(10, 7), Square { x: 1, y: 0, side: 7 });
    assert_eq!(avatar_crop(4, 9), Square { x: 0, y: 2, side: 4 });
    assert_eq!(avatar_crop(5, 5), Square { x: 0, y: 0, side: 5 });
}

#[test]
fn avatars_have_the_size_asked_for() {
    let bytes = png(30, 20, [1, 128, 254, 255]);
    let rgba = avatar_pixels(&bytes, 8).unwrap();
    assert_eq!(rgba, [1, 128, 254, 255].repeat(64));
    assert_eq!(avatar_pixels(&bytes, 0), Some(vec![]));
}

#[test]
fn zones_follow_the_distance_from_the_centre() {
    for size in [1u32, 2, 3, 8, 33, 78] {
        let centre = size as f32 / 2.0;
        let radius = centre - 1.0;
        for y in 0..size {
            for x in 0..size {
                let dx = x as f32 + 0.5 - centre;
                let dy = y as f32 + 0.5 - centre;
                let dist = (dx * dx + dy * dy).sqrt();
                let expected = if dist >= radius + 1.0 {
                    Zone::Outside
                } else if dist > radius - 1.0 {
                    Zone::Edge
                } else {
                    Zone::Inside
                };
                assert_eq!(zone_of(x, y, size), expected, "{} {} {}", x, y, size);
            }
        }
    }
}

#[test]
fn corners_are_masked_and_the_middle_is_kept() {
    let size = 16;
    let before = noise(16 * 16 * 4);
    let mut rgba = before.clone();
    mask_corners(&mut rgba, size);
    for y in 0..size {
        for x in 0..size {
            let at = ((y * size + x) * 4) as usize;
            assert_eq!(rgba[at..at + 3], before[at..at + 3]);
            if zone_of(x, y, size) == Zone::Outside {
                assert_eq!(rgba[at + 3], 0);
            } else {
                assert_eq!(rgba[at + 3], before[at + 3]);
            }
        }
    }
}
