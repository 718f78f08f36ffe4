//! The image-normalization pipeline and the bitmap model.

use yas_scanner_genshin::bitmap::{color_distance, Rgb8, RgbBitmap};
use yas_scanner_genshin::preprocess::{
    binarize, normalize, pre_process, pre_process_pending_line, resize_and_pad, to_gray,
    GrayBitmap,
};

fn uniform_rgb(width: u32, height: u32, c: (u8, u8, u8)) -> RgbBitmap {
    let mut data = Vec::new();
    for _ in 0..width * height {
        data.push(c.0);
        data.push(c.1);
        data.push(c.2);
    }
    RgbBitmap::from_raw(width, height, data).unwrap()
}

fn gray(width: u32, height: u32, values: Vec<u32>) -> GrayBitmap {
    GrayBitmap::from_raw(width, height, values).unwrap()
}

#[test]
fn color_distance_is_squared_euclidean() {
    let a = Rgb8 { r: 1, g: 2, b: 3 };
    let b = Rgb8 { r: 4, g: 6, b: 3 };
    assert_eq!(color_distance(&a, &b), 25);
    assert_eq!(color_distance(&a, &a), 0);
}

#[test]
fn bitmap_from_raw_checks_length() {
    assert!(RgbBitmap::from_raw(2, 2, vec![0; 12]).is_some());
    assert!(RgbBitmap::from_raw(2, 2, vec![0; 11]).is_none());
}

#[test]
fn bitmap_pixels_and_crop() {
    let mut data = vec![0u8; 27];
    // Pixel (1, 2) of a 3x3 image.
    let idx = 3 * (2 * 3 + 1);
    data[idx] = 10;
    data[idx + 1] = 20;
    data[idx + 2] = 30;
    let im = RgbBitmap::from_raw(3, 3, data).unwrap();
    assert_eq!(im.get_pixel(1, 2), Rgb8 { r: 10, g: 20, b: 30 });
    let sub = im.crop_region(1, 2, 2, 1);
    assert_eq!(sub.get_pixel(0, 0), Rgb8 { r: 10, g: 20, b: 30 });
    assert_eq!(sub.get_pixel(1, 0), Rgb8 { r: 0, g: 0, b: 0 });
}

#[test]
fn to_gray_uses_luminance_weights() {
    let white = to_gray(&uniform_rgb(2, 2, (255, 255, 255)));
    assert_eq!(white.get(0, 0), 9999);
    let black = to_gray(&uniform_rgb(2, 2, (0, 0, 0)));
    assert_eq!(black.get(1, 1), 0);
    let red = to_gray(&uniform_rgb(1, 1, (255, 0, 0)));
    assert_eq!(red.get(0, 0), 2989);
}

#[test]
fn normalize_fails_without_contrast() {
    // A blank capture: min == max, so normalization reports no usable text
    // and leaves the image unchanged.
    let mut im = gray(3, 2, vec![4000; 6]);
    let before = im.data.clone();
    assert!(!normalize(&mut im, true));
    assert_eq!(im.data, before);
    let mut empty = gray(0, 0, vec![]);
    assert!(!normalize(&mut empty, true));
}

#[test]
fn pre_process_reports_no_text_for_single_color() {
    let im = to_gray(&uniform_rgb(8, 4, (120, 120, 120)));
    let before = im.data.clone();
    let (out, ok) = pre_process(im);
    assert!(!ok);
    assert_eq!(out.data, before);
    let im2 = to_gray(&uniform_rgb(8, 4, (120, 120, 120)));
    let (_, ok2) = pre_process_pending_line(im2);
    assert!(!ok2);
}

#[test]
fn normalize_rescales_to_full_range() {
    let mut im = gray(2, 1, vec![2000, 6000]);
    assert!(normalize(&mut im, false));
    assert_eq!(im.data, vec![0, 10000]);
    let mut mid = gray(3, 1, vec![2000, 4000, 6000]);
    assert!(normalize(&mut mid, false));
    assert_eq!(mid.data, vec![0, 5000, 10000]);
}

#[test]
fn auto_inverse_gives_both_polarities_the_same_canvas() {
    // Dark text on a light background, and the same text light on dark.
    // The polarity reference pixel (second-from-right, bottom row) is
    // background in both.  After normalization with auto-inverse both
    // yield the same image, with text at full intensity.
    let w = 6u32;
    let h = 3u32;
    let text = [(1u32, 1u32), (2, 1), (3, 1)];
    let mut dark_on_light = Vec::new();
    let mut light_on_dark = Vec::new();
    for y in 0..h {
        for x in 0..w {
            let is_text = text.contains(&(x, y));
            dark_on_light.push(if is_text { 1000 } else { 9000 });
            light_on_dark.push(if is_text { 9000 } else { 1000 });
        }
    }
    let mut a = gray(w, h, dark_on_light);
    let mut b = gray(w, h, light_on_dark);
    assert!(normalize(&mut a, true));
    assert!(normalize(&mut b, true));
    assert_eq!(a.data, b.data);
    for y in 0..h {
        for x in 0..w {
            let expected = if text.contains(&(x, y)) { 10000 } else { 0 };
            assert_eq!(a.get(x, y), expected);
        }
    }
}

#[test]
fn auto_inverse_full_pipeline_agrees() {
    let w = 8u32;
    let h = 4u32;
    let text = [(2u32, 1u32), (3, 1), (4, 2)];
    let mut dark_on_light = Vec::new();
    let mut light_on_dark = Vec::new();
    for y in 0..h {
        for x in 0..w {
            let is_text = text.contains(&(x, y));
            dark_on_light.push(if is_text { 500 } else { 9500 });
            light_on_dark.push(if is_text { 9500 } else { 500 });
        }
    }
    let (out_a, ok_a) = pre_process(gray(w, h, dark_on_light));
    let (out_b, ok_b) = pre_process(gray(w, h, light_on_dark));
    assert!(ok_a && ok_b);
    assert_eq!(out_a.data, out_b.data);
    assert_eq!((out_a.width, out_a.height), (384, 32));
    assert!(out_a.data.iter().all(|&v| v == 0 || v == 10000));
    assert!(out_a.data.iter().any(|&v| v == 10000));
}

#[test]
fn binarize_thresholds_every_pixel() {
    let mut im = gray(4, 1, vec![0, 5299, 5300, 10000]);
    binarize(&mut im, 5300);
    assert_eq!(im.data, vec![0, 0, 10000, 10000]);
}

#[test]
fn pre_process_crops_before_resizing() {
    // One bright column on a dark background: after cropping and resizing,
    // the canvas is fully covered in the occupied region.
    let w = 10u32;
    let h = 5u32;
    let mut vals = Vec::new();
    for y in 0..h {
        for x in 0..w {
            let _ = y;
            vals.push(if x == 4 { 10000 } else { 0 });
        }
    }
    let (out, ok) = pre_process(gray(w, h, vals));
    assert!(ok);
    assert_eq!((out.width, out.height), (384, 32));
    // The cropped content is the single bright column; the resized canvas
    // holds it at the origin.
    assert_eq!(out.get(0, 0), 10000);
}

#[test]
fn resize_places_source_boxes_exactly() {
    // A 2x2 image scaled to height 32 becomes 32 wide; each output pixel
    // is the average of its (here single-pixel) source box, and the canvas
    // is zero beyond the resized width.
    let im = gray(2, 2, vec![1000, 2000, 3000, 4000]);
    let out = resize_and_pad(&im);
    assert_eq!((out.width, out.height), (384, 32));
    assert_eq!(out.get(0, 0), 1000);
    assert_eq!(out.get(16, 0), 2000);
    assert_eq!(out.get(0, 16), 3000);
    assert_eq!(out.get(31, 31), 4000);
    assert_eq!(out.get(32, 0), 0);
    assert_eq!(out.get(383, 31), 0);
}

#[test]
fn resize_averages_downscaled_boxes() {
    // A 2x64 image resizes to 1x32: each output pixel averages a 2x2
    // source box, rounding down.
    let mut vals = Vec::new();
    for y in 0..64u32 {
        for _ in 0..2u32 {
            vals.push(y * 100);
        }
    }
    let im = gray(2, 64, vals);
    let out = resize_and_pad(&im);
    // Source rows (0, 1) average to 50.
    assert_eq!(out.get(0, 0), 50);
    // Source rows (62, 63) average to 6250.
    assert_eq!(out.get(0, 31), 6250);
    // A width that would resize to zero produces the blank canvas.
    let thin = gray(1, 64, (0..64u32).map(|k| k * 100).collect());
    let blank = resize_and_pad(&thin);
    assert!(blank.data.iter().all(|&v| v == 0));
}
