use dnf_assist::ocr::{contour_bounds, masked_indices, unpad_points};
use dnf_assist::raster::{crop, pad_image, pixel_rgb, RgbPixels, RgbaPixels};
use image::{imageops, GenericImageView, Rgb, RgbImage, Rgba, RgbaImage};

fn sample(w: u32, h: u32) -> RgbImage {
    RgbImage::from_fn(w, h, |x, y| Rgb([(x * 10) as u8, (y * 20) as u8, (x + y) as u8]))
}

fn padded_with_image_crate(img: &RgbImage, padding: u32) -> RgbImage {
    if padding == 0 {
        return img.clone();
    }
    let (w, h) = img.dimensions();
    let mut padded = RgbImage::from_pixel(w + 2 * padding, h + 2 * padding, Rgb([255, 255, 255]));
    imageops::replace(&mut padded, img, padding as i64, padding as i64);
    padded
}

#[test]
fn padding_matches_image_crate() {
    for (w, h, p) in [(3u32, 2u32, 2u32), (1, 1, 1), (4, 3, 0), (0, 2, 3), (5, 1, 4)] {
        let img = sample(w, h);
        let pixels = RgbPixels { width: w, height: h, data: img.as_raw().clone() };
        let padded = pad_image(&pixels, p);
        let expected = padded_with_image_crate(&img, p);
        assert_eq!((padded.width, padded.height), expected.dimensions());
        assert_eq!(&padded.data, expected.as_raw(), "case {:?}", (w, h, p));
    }
}

#[test]
fn padding_border_is_white() {
    let img = sample(2, 2);
    let pixels = RgbPixels { width: 2, height: 2, data: img.as_raw().clone() };
    let padded = pad_image(&pixels, 1);
    assert_eq!((padded.width, padded.height), (4, 4));
    assert_eq!(&padded.data[0..3], &[255, 255, 255]);
    // pixel (1, 1) of the padded image is pixel (0, 0) of the unpadded image
    let k = (1 * 4 + 1) * 3;
    assert_eq!(&padded.data[k..k + 3], &[0, 0, 0]);
}

#[test]
fn contour_box() {
    assert_eq!(contour_bounds(&vec![(3, 4), (1, 7), (5, 2)], 10, 10), (1, 2, 5, 7));
    // the box starts from the map's size: points past it do not lower it
    assert_eq!(contour_bounds(&vec![(12, 11)], 10, 10), (10, 10, 12, 11));
    assert_eq!(contour_bounds(&vec![], 10, 10), (10, 10, 0, 0));
}

#[test]
fn masked_cells() {
    // a 2 by 2 region at (1, 1) of a 4-wide map of 9 scores
    let mask = vec![true, false, true, true];
    assert_eq!(masked_indices(&mask, 2, 2, 1, 1, 4, 9), vec![5]);
    assert_eq!(masked_indices(&mask, 2, 2, 1, 1, 4, 16), vec![5, 9, 10]);
    assert_eq!(masked_indices(&vec![], 0, 0, 0, 0, 4, 16), Vec::<usize>::new());
}

#[test]
fn unpadding_returns_to_the_source_pixel() {
    let img = sample(3, 2);
    let pixels = RgbPixels { width: 3, height: 2, data: img.as_raw().clone() };
    let p = 5;
    let padded = pad_image(&pixels, p);
    let (x, y) = (2u32, 1u32);
    let k = (((y + p) * padded.width + (x + p)) * 3) as usize;
    let o = ((y * 3 + x) * 3) as usize;
    assert_eq!(&padded.data[k..k + 3], &pixels.data[o..o + 3]);
    assert_eq!(unpad_points(&vec![(x + p, y + p)], p), vec![(x, y)]);
}

fn rgba_sample(w: u32, h: u32) -> RgbaImage {
    RgbaImage::from_fn(w, h, |x, y| Rgba([(x * 10) as u8, (y * 20) as u8, (x + y) as u8, 255 - x as u8]))
}

#[test]
fn pixel_matches_image_crate() {
    let img = rgba_sample(5, 4);
    let pixels = RgbaPixels { width: 5, height: 4, data: img.as_raw().clone() };
    for (x, y) in [(0u32, 0u32), (4, 3), (2, 1), (3, 0)] {
        let p = img.get_pixel(x, y);
        assert_eq!(pixel_rgb(&pixels, x, y), (p[0], p[1], p[2]));
    }
    assert_eq!(pixel_rgb(&pixels, 4, 3), (40, 60, 7));
}

#[test]
fn crop_matches_image_view() {
    let img = rgba_sample(6, 5);
    let pixels = RgbaPixels { width: 6, height: 5, data: img.as_raw().clone() };
    for (x, y, w, h) in [(1u32, 2u32, 3u32, 2u32), (0, 0, 6, 5), (5, 4, 1, 1), (2, 3, 0, 2)] {
        let part = crop(&pixels, x, y, w, h);
        let expected = img.view(x, y, w, h).to_image();
        assert_eq!((part.width, part.height), (w, h));
        assert_eq!(&part.data, expected.as_raw(), "case {:?}", (x, y, w, h));
    }
}
