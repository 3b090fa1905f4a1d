//! Cutting a selection out of the screenshot and encoding it.

use crate::screenshot::Screenshot;
use crate::shrink::clamped;
use vstd::arithmetic::div_mod::lemma_fundamental_div_mod_converse;
use vstd::prelude::*;

verus! {

/// The part of the image that a selection (left, top, right, bottom) cuts out, as its left
/// column, top row, width and height. It is never empty.
pub open spec fn crop_box(img: Screenshot, rect: (i64, i64, i64, i64)) -> (int, int, int, int) {
    let left = clamped(rect.0 as int, img.width - 1);
    let top = clamped(rect.1 as int, img.height - 1);
    let right = clamped(rect.2 as int, img.width as int);
    let bottom = clamped(rect.3 as int, img.height as int);
    let width = if right - left < 1 {
        1
    } else {
        right - left
    };
    let height = if bottom - top < 1 {
        1
    } else {
        bottom - top
    };
    (left, top, width, height)
}

/// The channels of the `w` by `h` pixels whose top left one is at `x`, `y`.
pub open spec fn cropped_pixels(img: Screenshot, x: int, y: int, w: int, h: int) -> Seq<u8> {
    Seq::new(
        (4 * (w * h)) as nat,
        |i: int| img.pixels@[img.offset(x + (i / 4) % w, y + (i / 4) / w) + i % 4],
    )
}

/// The bytes of the PNG file that the `image` crate writes for an image, or `None` where it
/// reports an error.
pub uninterp spec fn png_encoding(width: u32, height: u32, rgba: Seq<u8>) -> Option<Seq<u8>>;

/// `image::imageops::crop_imm` followed by `to_image`: a copy of the pixels inside the given
/// bounds, row by row.
#[verifier::external_body]
fn crop_imm(img: &Screenshot, x: u32, y: u32, w: u32, h: u32) -> (r: Screenshot)
    requires
        img.inv(),
        0 < w,
        0 < h,
        x + w <= img.width,
        y + h <= img.height,
    ensures
        r.width == w,
        r.height == h,
        r.pixels@ == cropped_pixels(*img, x as int, y as int, w as int, h as int),
{
    let source = image::RgbaImage::from_raw(img.width, img.height, img.pixels.clone()).unwrap();
    let out = image::imageops::crop_imm(&source, x, y, w, h).to_image();
    Screenshot { width: out.width(), height: out.height(), pixels: out.into_raw() }
}

/// `image::ImageBuffer::write_to` in the PNG format, into memory: the bytes depend on the
/// image alone. What they are is not stated.
#[verifier::external_body]
fn write_png(img: &Screenshot) -> (r: Option<Vec<u8>>)
    requires
        img.inv(),
        img.width > 0,
        img.height > 0,
    ensures
        (match r {
            Some(bytes) => Some(bytes@),
            None => None,
        }) == png_encoding(img.width, img.height, img.pixels@),
{
    let source = image::RgbaImage::from_raw(img.width, img.height, img.pixels.clone())?;
    let mut out = std::io::Cursor::new(Vec::new());
    source.write_to(&mut out, image::ImageFormat::Png).ok()?;
    Some(out.into_inner())
}

fn clamp_u32(v: i64, max: u32) -> (r: u32)
    ensures
        r == clamped(v as int, max as int),
{
    if v < 0 {
        0
    } else if v > max as i64 {
        max
    } else {
        v as u32
    }
}

/// Cuts the selection (left, top, right, bottom) out of the image. A selection without area,
/// or outside the image, still gives one pixel.
pub fn crop_rect(img: &Screenshot, rect: (i64, i64, i64, i64)) -> (r: Screenshot)
    requires
        img.inv(),
        img.width > 0,
        img.height > 0,
    ensures
        r.inv(),
        ({
            let (x, y, w, h) = crop_box(*img, rect);
            &&& r.width == w
            &&& r.height == h
            &&& r.pixels@ == cropped_pixels(*img, x, y, w, h)
        }),
{
    let left = clamp_u32(rect.0, img.width - 1);
    let top = clamp_u32(rect.1, img.height - 1);
    let right = clamp_u32(rect.2, img.width);
    let bottom = clamp_u32(rect.3, img.height);
    let w: u32 = if right > left {
        right - left
    } else {
        1
    };
    let h: u32 = if bottom > top {
        bottom - top
    } else {
        1
    };
    assert(0 < w * h) by (nonlinear_arith)
        requires
            0 < w,
            0 < h,
    ;
    crop_imm(img, left, top, w, h)
}

/// The selection (left, top, right, bottom) as the bytes of a PNG file, or `None` where the
/// encoder reports an error.
pub fn crop_to_png_bytes(img: &Screenshot, rect: (i64, i64, i64, i64)) -> (r: Option<Vec<u8>>)
    requires
        img.inv(),
        img.width > 0,
        img.height > 0,
    ensures
        ({
            let (x, y, w, h) = crop_box(*img, rect);
            (match r {
                Some(bytes) => Some(bytes@),
                None => None,
            }) == png_encoding(w as u32, h as u32, cropped_pixels(*img, x, y, w, h))
        }),
{
    let cropped = crop_rect(img, rect);
    write_png(&cropped)
}

// Laws

/// What is cut out lies in the image and holds at least one pixel.
pub proof fn law_crop_stays_in_image(img: Screenshot, rect: (i64, i64, i64, i64))
    requires
        img.width > 0,
        img.height > 0,
    ensures
        ({
            let (x, y, w, h) = crop_box(img, rect);
            &&& 0 <= x && 0 <= y
            &&& 1 <= w && x + w <= img.width
            &&& 1 <= h && y + h <= img.height
        }),
{
}

/// The pixels of a crop are those of the image at the same places, whatever the selection is. One
/// that lies in the image is cut out as it is: the crop is as wide and high as the selection.
pub proof fn law_crop_keeps_pixels(
    img: Screenshot,
    rect: (i64, i64, i64, i64),
    cropped: Screenshot,
    i: int,
    j: int,
)
    requires
        img.inv(),
        img.width > 0,
        img.height > 0,
        ({
            let (x, y, w, h) = crop_box(img, rect);
            &&& cropped.width == w
            &&& cropped.height == h
            &&& cropped.pixels@ == cropped_pixels(img, x, y, w, h)
        }),
    ensures
        ({
            let (x, y, w, h) = crop_box(img, rect);
            &&& cropped.covers(i, j) ==> img.covers(x + i, y + j)
            &&& cropped.covers(i, j) ==> cropped.rgba(i, j) == img.rgba(x + i, y + j)
            &&& 0 <= rect.0 < rect.2 <= img.width && 0 <= rect.1 < rect.3 <= img.height ==> {
                &&& x == rect.0 && y == rect.1
                &&& w == rect.2 - rect.0 && h == rect.3 - rect.1
            }
        }),
{
    let (w, h) = (cropped.width as int, cropped.height as int);
    if cropped.covers(i, j) {
        assert(0 < w * h) by (nonlinear_arith)
            requires
                0 < w,
                0 < h,
        ;
        cropped.lemma_offset(i, j);
        lemma_fundamental_div_mod_converse(j * w + i, w, j, i);
        let at = cropped.offset(i, j);
        assert(at / 4 == j * w + i && (at + 1) / 4 == j * w + i && (at + 2) / 4 == j * w + i && (at
            + 3) / 4 == j * w + i);
    }
}

/// A crop holds exactly the columns and rows of the image that the selection covers. Where it
/// covers none on an axis, the crop has one there: the one nearest to where the selection starts.
pub proof fn law_crop_holds_what_the_selection_covers(
    img: Screenshot,
    rect: (i64, i64, i64, i64),
    u: int,
    v: int,
)
    requires
        img.width > 0,
        img.height > 0,
    ensures
        ({
            let (x, y, w, h) = crop_box(img, rect);
            &&& rect.0 < rect.2 && rect.0 < img.width && rect.2 > 0 && 0 <= u < img.width ==> (x
                <= u < x + w <==> rect.0 <= u < rect.2)
            &&& rect.1 < rect.3 && rect.1 < img.height && rect.3 > 0 && 0 <= v < img.height ==> (y
                <= v < y + h <==> rect.1 <= v < rect.3)
            &&& rect.0 >= rect.2 || rect.0 >= img.width || rect.2 <= 0 ==> w == 1
            &&& rect.1 >= rect.3 || rect.1 >= img.height || rect.3 <= 0 ==> h == 1
            &&& 0 <= rect.0 < img.width ==> x == rect.0
            &&& 0 <= rect.1 < img.height ==> y == rect.1
            &&& rect.0 < 0 ==> x == 0
            &&& rect.1 < 0 ==> y == 0
            &&& rect.0 >= img.width ==> x == img.width - 1
            &&& rect.1 >= img.height ==> y == img.height - 1
        }),
{
}

} // verus!
