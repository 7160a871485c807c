//! Rendered pages.

use parselab::error::Error;
use parselab::modal::PageImage;
use parselab::number::Real;
use parselab::raster::{check_page, clip, crop_to_png, PixelRect};

fn rect(x: u32, y: u32, w: u32, h: u32) -> PixelRect {
    PixelRect { x, y, w, h }
}

/// A page of 4 by 3 pixels, each of its own colour.
fn page() -> PageImage {
    let raster = image::RgbImage::from_fn(4, 3, |x, y| image::Rgb([x as u8, y as u8, 7]));
    let mut png_bytes = Vec::new();
    raster
        .write_to(&mut std::io::Cursor::new(&mut png_bytes), image::ImageFormat::Png)
        .unwrap();
    PageImage {
        page: 0,
        png_bytes,
        width_px: 4,
        height_px: 3,
        width_pts: Real::from_whole(4),
        height_pts: Real::from_whole(3),
        rotation_deg: 0,
        dpi: 72,
    }
}

#[test]
fn pages_are_counted_from_zero() {
    assert_eq!(check_page(2, 3), Ok(()));
    assert_eq!(
        check_page(3, 3),
        Err(Error::Render("page 3 out of range (pdf has 3 pages)".to_string()))
    );
}

#[test]
fn regions_are_cut_off_at_the_edge() {
    assert_eq!(clip(rect(1, 1, 2, 1), 4, 3), Some(rect(1, 1, 2, 1)));
    assert_eq!(clip(rect(1, 1, 10, 10), 4, 3), Some(rect(1, 1, 3, 2)));
    assert_eq!(clip(rect(4, 0, 1, 1), 4, 3), None);
    assert_eq!(clip(rect(9, 0, 1, 1), 4, 3), None);
    assert_eq!(clip(rect(0, 0, 0, 1), 4, 3), None);
}

#[test]
fn a_region_is_cut_out_of_a_page() {
    let png = crop_to_png(&page(), rect(1, 1, 10, 1), "").unwrap();
    let cut = image::load_from_memory(&png).unwrap().to_rgb8();
    assert_eq!(cut.dimensions(), (3, 1));
    for x in 0..3u32 {
        assert_eq!(cut.get_pixel(x, 0).0, [x as u8 + 1, 1, 7]);
    }
}

#[test]
fn a_region_off_the_page_is_refused() {
    let why = crop_to_png(&page(), rect(4, 0, 1, 1), "B").unwrap_err();
    assert_eq!(
        why.message(),
        "render: selection collapsed to zero pixels (bbox=B, page_dims=4x3px)"
    );
    let broken = PageImage { png_bytes: vec![1, 2, 3], ..page() };
    let why = crop_to_png(&broken, rect(4, 0, 1, 1), "B").unwrap_err();
    assert!(why.message().starts_with("render: decode rendered png: "));
}
