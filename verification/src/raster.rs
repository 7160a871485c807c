//! Rendered pages: which pages there are, and cutting a region out of one.

use crate::error::{Error, ErrorView};
use crate::modal::PageImage;
use crate::text::{decimal, decimal_text};
use vstd::prelude::*;

verus! {

#[verifier::external_type_specification]
#[verifier::external_body]
pub struct ExDynamicImage(image::DynamicImage);

// ---------------------------------------------------------------------------
// Pictures
// ---------------------------------------------------------------------------

/// A picture: its size, how a pixel of it is stored and in which colour space, and
/// its rows of pixels from the top down, each pixel by its bytes.
pub struct Picture {
    pub width: u32,
    pub height: u32,
    pub form: int,
    pub rows: Seq<Seq<Seq<u8>>>,
}

/// The picture that an `image::DynamicImage` holds.
pub uninterp spec fn picture(i: image::DynamicImage) -> Picture;

/// What `image::load_from_memory` makes of bytes: the picture, or the text of the
/// error.
pub uninterp spec fn picture_decoded(bytes: Seq<u8>) -> Result<Picture, Seq<char>>;

/// What `image::DynamicImage::write_to` writes for a picture as PNG, or the text of
/// the error.
pub uninterp spec fn png_encoded(p: Picture) -> Result<Seq<u8>, Seq<char>>;

/// A rectangle in whole pixels.
#[derive(Debug, Clone, Copy, PartialEq, Eq, Structural)]
pub struct PixelRect {
    pub x: u32,
    pub y: u32,
    pub w: u32,
    pub h: u32,
}

pub open spec fn lesser(a: u32, b: u32) -> u32 {
    if a <= b {
        a
    } else {
        b
    }
}

/// How much there is of `total` from `from` on.
pub open spec fn rest(total: u32, from: u32) -> u32 {
    if from <= total {
        (total - from) as u32
    } else {
        0
    }
}

/// The rectangle as far as it reaches into an area of this size.
pub open spec fn clipped(r: PixelRect, width: u32, height: u32) -> PixelRect {
    PixelRect { w: lesser(r.w, rest(width, r.x)), h: lesser(r.h, rest(height, r.y)), ..r }
}

/// The part of a picture in a rectangle that lies in it.
pub open spec fn cut(p: Picture, r: PixelRect) -> Picture {
    Picture {
        width: r.w,
        height: r.h,
        form: p.form,
        rows: Seq::new(
            r.h as nat,
            |j: int| Seq::new(r.w as nat, |i: int| p.rows[r.y + j][r.x + i]),
        ),
    }
}

/// Calls `image::load_from_memory`, and `to_string` on its error.
#[verifier::external_body]
fn decode(bytes: &[u8]) -> (r: Result<image::DynamicImage, String>)
    ensures
        match r {
            Ok(i) => picture_decoded(bytes@) matches Ok(p) && p == picture(i),
            Err(e) => picture_decoded(bytes@) matches Err(t) && t == e@,
        },
{
    image::load_from_memory(bytes).map_err(|e| e.to_string())
}

/// Calls `image::DynamicImage::crop_imm`: what of the rectangle lies in the picture
/// is cut out.
#[verifier::external_body]
fn crop(i: &image::DynamicImage, r: PixelRect) -> (out: image::DynamicImage)
    ensures
        picture(out) == cut(picture(*i), clipped(r, picture(*i).width, picture(*i).height)),
{
    i.crop_imm(r.x, r.y, r.w, r.h)
}

/// Calls `image::DynamicImage::write_to` for PNG, and `to_string` on its error.
#[verifier::external_body]
fn encode(i: &image::DynamicImage) -> (r: Result<Vec<u8>, String>)
    ensures
        match r {
            Ok(bytes) => png_encoded(picture(*i)) matches Ok(b) && b == bytes@,
            Err(e) => png_encoded(picture(*i)) matches Err(t) && t == e@,
        },
{
    let mut out = Vec::new();
    match i.write_to(&mut std::io::Cursor::new(&mut out), image::ImageFormat::Png) {
        Ok(()) => Ok(out),
        Err(e) => Err(e.to_string()),
    }
}

// ---------------------------------------------------------------------------
// Pages and regions
// ---------------------------------------------------------------------------

/// What is reported for a page that there is not.
pub open spec fn out_of_range(page: u32, pages: u32) -> ErrorView {
    ErrorView::Render(
        "page "@ + decimal(page as nat) + " out of range (pdf has "@ + decimal(pages as nat)
            + " pages)"@,
    )
}

/// Is there a page `page` in a PDF with `pages` pages?
pub fn check_page(page: u32, pages: u32) -> (r: Result<(), Error>)
    ensures
        match r {
            Ok(()) => page < pages,
            Err(e) => page >= pages && e@ == out_of_range(page, pages),
        },
{
    if page >= pages {
        let why = String::from_str("page ").concat(decimal_text(page as u64).as_str()).concat(
            " out of range (pdf has ",
        ).concat(decimal_text(pages as u64).as_str()).concat(" pages)");
        Err(Error::Render(why))
    } else {
        Ok(())
    }
}

/// The rectangle as far as it reaches into an area of this size, if anything is
/// left of it.
pub fn clip(r: PixelRect, width: u32, height: u32) -> (out: Option<PixelRect>)
    ensures
        match out {
            Some(c) => c == clipped(r, width, height) && c.w > 0 && c.h > 0,
            None => clipped(r, width, height).w == 0 || clipped(r, width, height).h == 0,
        },
{
    let across: u32 = if r.x <= width {
        width - r.x
    } else {
        0
    };
    let down: u32 = if r.y <= height {
        height - r.y
    } else {
        0
    };
    let w: u32 = if r.w <= across {
        r.w
    } else {
        across
    };
    let h: u32 = if r.h <= down {
        r.h
    } else {
        down
    };
    if w == 0 || h == 0 {
        None
    } else {
        Some(PixelRect { x: r.x, y: r.y, w, h })
    }
}

/// What is reported for a region of which nothing is left. `shown` is the region in
/// points.
pub open spec fn collapsed(shown: Seq<char>, width: u32, height: u32) -> ErrorView {
    ErrorView::Render(
        "selection collapsed to zero pixels (bbox="@ + shown + ", page_dims="@ + decimal(
            width as nat,
        ) + "x"@ + decimal(height as nat) + "px)"@,
    )
}

/// The PNG of a region of a rendered page, or what is reported.
pub open spec fn region_png(
    png: Seq<u8>,
    width: u32,
    height: u32,
    region: PixelRect,
    shown: Seq<char>,
) -> Result<Seq<u8>, ErrorView> {
    let part = clipped(region, width, height);
    match picture_decoded(png) {
        Err(why) => Err(ErrorView::Render("decode rendered png: "@ + why)),
        Ok(p) => if part.w == 0 || part.h == 0 {
            Err(collapsed(shown, width, height))
        } else {
            match png_encoded(cut(p, clipped(part, p.width, p.height))) {
                Ok(bytes) => Ok(bytes),
                Err(why) => Err(ErrorView::Render("encode cropped png: "@ + why)),
            }
        },
    }
}

/// Cut a region, given in pixels, out of a rendered page. A region may reach over
/// the edge of the page: it is cut off there. `shown` is the region in points.
pub fn crop_to_png(image: &PageImage, region: PixelRect, shown: &str) -> (r: Result<Vec<u8>, Error>)
    ensures
        match r {
            Ok(bytes) => region_png(
                image.png_bytes@,
                image.width_px,
                image.height_px,
                region,
                shown@,
            ) == Ok::<Seq<u8>, ErrorView>(bytes@),
            Err(e) => region_png(
                image.png_bytes@,
                image.width_px,
                image.height_px,
                region,
                shown@,
            ) == Err::<Seq<u8>, ErrorView>(e@),
        },
{
    let decoded = match decode(&image.png_bytes) {
        Ok(i) => i,
        Err(why) => return Err(
            Error::Render(String::from_str("decode rendered png: ").concat(why.as_str())),
        ),
    };
    let part = match clip(region, image.width_px, image.height_px) {
        Some(part) => part,
        None => {
            let why = String::from_str("selection collapsed to zero pixels (bbox=").concat(
                shown,
            ).concat(", page_dims=").concat(decimal_text(image.width_px as u64).as_str()).concat(
                "x",
            ).concat(decimal_text(image.height_px as u64).as_str()).concat("px)");
            return Err(Error::Render(why));
        },
    };
    match encode(&crop(&decoded, part)) {
        Ok(bytes) => Ok(bytes),
        Err(why) => Err(Error::Render(String::from_str("encode cropped png: ").concat(why.as_str()))),
    }
}

/// What is cut out of a picture lies in it: clipping a second time changes nothing.
pub proof fn clipping_settles(r: PixelRect, width: u32, height: u32)
    ensures
        clipped(clipped(r, width, height), width, height) == clipped(r, width, height),
        clipped(r, width, height).w <= r.w,
        clipped(r, width, height).h <= r.h,
        clipped(r, width, height).w > 0 ==> r.x + clipped(r, width, height).w <= width,
        clipped(r, width, height).h > 0 ==> r.y + clipped(r, width, height).h <= height,
{
}

/// Is `part` the piece of `whole` with this corner and this size?
pub open spec fn is_piece(part: Picture, whole: Picture, x: int, y: int, w: int, h: int) -> bool {
    &&& part.width == w
    &&& part.height == h
    &&& part.form == whole.form
    &&& part.rows.len() == h
    &&& forall|j: int| 0 <= j < h ==> (#[trigger] part.rows[j]).len() == w
    &&& forall|i: int, j: int|
        0 <= i < w && 0 <= j < h ==> #[trigger] part.rows[j][i] == whole.rows[y + j][x + i]
}

/// A region inside the page gives the picture of that region: as wide and as high, and
/// its pixel (i, j) is the pixel (x + i, y + j) of the page.
pub proof fn a_region_inside_is_cut_out(
    png: Seq<u8>,
    page: Picture,
    width: u32,
    height: u32,
    region: PixelRect,
    shown: Seq<char>,
)
    requires
        picture_decoded(png) == Ok::<Picture, Seq<char>>(page),
        region.w > 0,
        region.h > 0,
        region.x + region.w <= page.width,
        region.y + region.h <= page.height,
        region.x + region.w <= width,
        region.y + region.h <= height,
    ensures
        exists|part: Picture|
            {
                &&& #[trigger] is_piece(
                    part,
                    page,
                    region.x as int,
                    region.y as int,
                    region.w as int,
                    region.h as int,
                )
                &&& match png_encoded(part) {
                    Ok(bytes) => region_png(png, width, height, region, shown) == Ok::<
                        Seq<u8>,
                        ErrorView,
                    >(bytes),
                    Err(_) => region_png(png, width, height, region, shown) is Err,
                }
            },
{
    let part = cut(page, region);
    assert(clipped(region, page.width, page.height) == region);
    assert(clipped(region, width, height) == region);
    assert(is_piece(
        part,
        page,
        region.x as int,
        region.y as int,
        region.w as int,
        region.h as int,
    ));
}

/// How much of `len` pixels, from `at` on, lies before `end`.
pub open spec fn on_the_page(at: u32, len: u32, end: u32) -> int {
    if at + len <= end {
        len as int
    } else {
        end - at
    }
}

/// A region that reaches over the right or the lower edge gives what of it lies on the
/// page.
pub proof fn a_region_over_the_edge_is_cut_off(
    png: Seq<u8>,
    page: Picture,
    region: PixelRect,
    shown: Seq<char>,
)
    requires
        picture_decoded(png) == Ok::<Picture, Seq<char>>(page),
        region.w > 0,
        region.h > 0,
        region.x < page.width,
        region.y < page.height,
    ensures
        exists|part: Picture|
            {
                &&& #[trigger] is_piece(
                    part,
                    page,
                    region.x as int,
                    region.y as int,
                    on_the_page(region.x, region.w, page.width),
                    on_the_page(region.y, region.h, page.height),
                )
                &&& match png_encoded(part) {
                    Ok(bytes) => region_png(png, page.width, page.height, region, shown) == Ok::<
                        Seq<u8>,
                        ErrorView,
                    >(bytes),
                    Err(_) => region_png(png, page.width, page.height, region, shown) is Err,
                }
            },
{
    let r = clipped(region, page.width, page.height);
    assert(clipped(r, page.width, page.height) == r);
    assert(is_piece(
        cut(page, r),
        page,
        region.x as int,
        region.y as int,
        on_the_page(region.x, region.w, page.width),
        on_the_page(region.y, region.h, page.height),
    ));
}

/// A region off the page, or without an extent, gives no picture, and neither does a page
/// that cannot be decoded.
pub proof fn nothing_is_cut_out_of_nothing(
    png: Seq<u8>,
    width: u32,
    height: u32,
    region: PixelRect,
    shown: Seq<char>,
)
    requires
        region.w == 0 || region.h == 0 || region.x >= width || region.y >= height
            || picture_decoded(png) is Err,
    ensures
        match picture_decoded(png) {
            Err(why) => region_png(png, width, height, region, shown) == Err::<Seq<u8>, ErrorView>(
                ErrorView::Render("decode rendered png: "@ + why),
            ),
            Ok(_) => region_png(png, width, height, region, shown) == Err::<Seq<u8>, ErrorView>(
                ErrorView::Render(
                    "selection collapsed to zero pixels (bbox="@ + shown + ", page_dims="@ + decimal(
                        width as nat,
                    ) + "x"@ + decimal(height as nat) + "px)"@,
                ),
            ),
        },
{
}

/// A page that there is not is reported with its number and that of the pages there are.
pub proof fn missing_pages_are_reported(page: u32, pages: u32)
    ensures
        out_of_range(page, pages) == ErrorView::Render(
            "page "@ + decimal(page as nat) + " out of range (pdf has "@ + decimal(pages as nat)
                + " pages)"@,
        ),
{
}

} // verus!
