//! Wallpapers and avatars as pixels.
use crate::blur::{
    alike_around, blurred, channel_index, fast_box_blur, law_blur_depends_on_the_surroundings,
    law_blur_is_a_mean_of_means, lemma_channel_index, means_along_columns, means_along_rows,
};
use crate::text::{concat3, hex_text, hexadecimal};
use image::imageops::FilterType;
use vstd::prelude::*;

verus! {

/// Declares `image::DynamicImage`, a decoded picture.
#[verifier::external_type_specification]
#[verifier::external_body]
pub struct ExDynamicImage(image::DynamicImage);

/// The width and height that `image::DynamicImage::width` and `height` report.
pub uninterp spec fn image_size(img: image::DynamicImage) -> (u32, u32);

/// The bytes that `image::DynamicImage::resize_exact` with the triangle filter, followed by
/// `to_rgba8`, make of a picture at a given size.
pub uninterp spec fn shrunk_rgba(img: image::DynamicImage, w: u32, h: u32) -> Seq<u8>;

/// Whether `image::load_from_memory` makes a picture of the bytes.
pub uninterp spec fn decodes(bytes: Seq<u8>) -> bool;

/// `img` is a picture that `image::load_from_memory` can make of the bytes.
pub uninterp spec fn is_picture_of(img: image::DynamicImage, bytes: Seq<u8>) -> bool;

/// Decodes a picture with `image::load_from_memory`.
///
/// Trusted: whether the bytes decode depends on the bytes alone, and the picture is one that comes
/// of them. That it is the only one is not claimed: a lossy format may be decoded with the vector
/// instructions that the machine has.
#[verifier::external_body]
fn decode(bytes: &[u8]) -> (img: Option<image::DynamicImage>)
    ensures
        img is Some == decodes(bytes@),
        img is Some ==> is_picture_of(img->0, bytes@),
{
    image::load_from_memory(bytes).ok()
}

/// The size of a picture, from `image::DynamicImage::width` and `height`.
///
/// Trusted: the result is a property of the picture, and since its pixels are held in one vector
/// their number fits in a `usize`.
#[verifier::external_body]
fn size_of(img: &image::DynamicImage) -> (size: (u32, u32))
    ensures
        size == image_size(*img),
        size.0 * size.1 <= usize::MAX,
{
    (img.width(), img.height())
}

/// Scales a picture to `w` by `h` with the triangle filter and takes its RGBA bytes.
///
/// Trusted: `resize_exact`, `to_rgba8` and `into_raw` of the image crate depend on their arguments
/// alone, and a picture of `w` by `h` pixels is held in four bytes each.
#[verifier::external_body]
fn shrink(img: &image::DynamicImage, w: u32, h: u32) -> (rgba: Vec<u8>)
    requires
        w >= 1,
        h >= 1,
        w * h * 4 <= usize::MAX,
    ensures
        rgba@ == shrunk_rgba(*img, w, h),
        rgba@.len() == w * h * 4,
{
    img.resize_exact(w, h, FilterType::Triangle).to_rgba8().into_raw()
}

/// `rgba` is what `image::DynamicImage::crop_imm`, `resize_exact` with the Lanczos filter and
/// `to_rgba8` can make of a square of a picture.
pub uninterp spec fn is_scaled_square(
    rgba: Seq<u8>,
    img: image::DynamicImage,
    x: u32,
    y: u32,
    side: u32,
    size: u32,
) -> bool;

/// Cuts a square out of a picture and scales it to `size` by `size` with the Lanczos filter.
///
/// Trusted: `crop_imm`, `resize_exact`, `to_rgba8` and `into_raw` of the image crate make of the
/// square a picture of the asked size, four bytes to a pixel. That its bytes are the same
/// everywhere is not claimed: the filter goes through the sine of the machine it runs on.
#[verifier::external_body]
fn crop_and_scale(img: &image::DynamicImage, x: u32, y: u32, side: u32, size: u32) -> (rgba: Vec<u8>)
    requires
        size * size * 4 <= usize::MAX,
        x + side <= image_size(*img).0,
        y + side <= image_size(*img).1,
    ensures
        is_scaled_square(rgba@, *img, x, y, side, size),
        rgba@.len() == size * size * 4,
{
    img.crop_imm(x, y, side, side)
        .resize_exact(size, size, FilterType::Lanczos3)
        .to_rgba8()
        .into_raw()
}

// ---------------------------------------------------------------------------
// Frosting
// ---------------------------------------------------------------------------

/// The radius of each of the three blurs of a frosted wallpaper.
pub const FROST_RADIUS: u32 = 6;

/// A quarter of a side, and at least one pixel.
pub open spec fn quarter(side: u32) -> u32 {
    if side < 4 {
        1
    } else {
        side / 4
    }
}

/// The brightness of a colour channel after darkening to 55 percent, rounded down.
pub open spec fn darkened(v: u8) -> u8 {
    ((v as int) * 11 / 20) as u8
}

/// Every red, green and blue byte darkened; alpha kept, and so are bytes that fill no pixel.
pub open spec fn darkened_pixels(rgba: Seq<u8>) -> Seq<u8> {
    Seq::new(
        rgba.len(),
        |i: int|
            if i % 4 != 3 && (i / 4 + 1) * 4 <= rgba.len() {
                darkened(rgba[i])
            } else {
                rgba[i]
            },
    )
}

/// A wallpaper blurred three times and darkened.
pub open spec fn frosted(rgba: Seq<u8>, w: nat, h: nat) -> Seq<u8> {
    let r = FROST_RADIUS as nat;
    darkened_pixels(blurred(blurred(blurred(rgba, w, h, r), w, h, r), w, h, r))
}

/// The width and height at which a wallpaper is frosted.
pub fn thumbnail_size(width: u32, height: u32) -> (size: (u32, u32))
    ensures
        size == (quarter(width), quarter(height)),
{
    let w: u32 = if width < 4 {
        1
    } else {
        width / 4
    };
    let h: u32 = if height < 4 {
        1
    } else {
        height / 4
    };
    (w, h)
}

fn darken(rgba: &mut Vec<u8>)
    ensures
        final(rgba)@ == darkened_pixels(old(rgba)@),
{
    let ghost before = rgba@;
    let len = rgba.len();
    let full = len - len % 4;
    let mut i: usize = 0;
    while i < full
        invariant
            rgba@.len() == len,
            before.len() == len,
            full == len - len % 4,
            i <= full,
            forall|j: int| 0 <= j < i ==> #[trigger] rgba@[j] == darkened_pixels(before)[j],
            forall|j: int| i <= j < len ==> #[trigger] rgba@[j] == before[j],
        decreases full - i,
    {
        if i % 4 != 3 {
            let v: u8 = rgba[i];
            let d: u16 = (v as u16) * 11 / 20;
            rgba[i] = d as u8;
        }
        i = i + 1;
    }
    proof {
        assert(rgba@ == darkened_pixels(before));
    }
}

/// Frosts the RGBA bytes of a wallpaper in place.
pub fn frost_pixels(rgba: &mut Vec<u8>, width: u32, height: u32)
    requires
        width * height * 4 <= old(rgba)@.len(),
    ensures
        final(rgba)@ == frosted(old(rgba)@, width as nat, height as nat),
{
    fast_box_blur(rgba.as_mut_slice(), width, height, FROST_RADIUS);
    fast_box_blur(rgba.as_mut_slice(), width, height, FROST_RADIUS);
    fast_box_blur(rgba.as_mut_slice(), width, height, FROST_RADIUS);
    darken(rgba);
}

/// A picture as RGBA bytes.
#[derive(Debug, PartialEq, Eq)]
pub struct Pixels {
    pub width: u32,
    pub height: u32,
    pub rgba: Vec<u8>,
}

/// `out` is the frosted wallpaper made of `img`.
pub open spec fn is_frosted(out: Pixels, img: image::DynamicImage) -> bool {
    let w = quarter(image_size(img).0);
    let h = quarter(image_size(img).1);
    &&& out.width == w
    &&& out.height == h
    &&& out.rgba@ == frosted(shrunk_rgba(img, w, h), w as nat, h as nat)
    &&& out.rgba@.len() == w * h * 4
}

proof fn lemma_thumbnail_fits(w: u32, h: u32)
    requires
        w * h <= usize::MAX,
    ensures
        quarter(w) * quarter(h) * 4 <= usize::MAX,
{
    let a = quarter(w) as int;
    let b = quarter(h) as int;
    if w >= 4 && h >= 4 {
        assert(a * b * 4 <= w * h) by (nonlinear_arith)
            requires
                4 * a <= w,
                4 * b <= h,
                a >= 1,
                b >= 1,
        ;
    } else if w < 4 {
        assert(a * b * 4 == b * 4) by (nonlinear_arith)
            requires
                a == 1,
        ;
    } else {
        assert(a * b * 4 == a * 4) by (nonlinear_arith)
            requires
                b == 1,
        ;
    }
}

/// Frosts a decoded wallpaper: scaled down to a quarter, blurred three times, darkened.
pub fn frost_image(img: &image::DynamicImage) -> (out: Pixels)
    ensures
        is_frosted(out, *img),
{
    let (w0, h0) = size_of(img);
    let (w, h) = thumbnail_size(w0, h0);
    proof {
        lemma_thumbnail_fits(w0, h0);
    }
    let mut rgba = shrink(img, w, h);
    frost_pixels(&mut rgba, w, h);
    Pixels { width: w, height: h, rgba }
}

/// What a wallpaper file is shown as.
#[derive(Debug, PartialEq, Eq)]
pub enum WallpaperImage {
    /// Pixels to draw.
    Pixels(Pixels),
    /// The file as it is: it did not decode, or it is shown sharp.
    Encoded(Vec<u8>),
}

fn copy_bytes(bytes: &[u8]) -> (copy: Vec<u8>)
    ensures
        copy@ == bytes@,
{
    let mut copy: Vec<u8> = Vec::new();
    for i in 0..bytes.len()
        invariant
            copy@ == bytes@.take(i as int),
    {
        copy.push(bytes[i]);
    }
    copy
}

/// `pixels` is the frosted wallpaper made of a file.
pub open spec fn is_frosted_file(pixels: Pixels, bytes: Seq<u8>) -> bool {
    exists|img: image::DynamicImage|
        #![trigger is_picture_of(img, bytes)]
        is_picture_of(img, bytes) && is_frosted(pixels, img)
}

/// The name under which a frosted wallpaper is kept.
pub open spec fn cache_name(hash: u64) -> Seq<char> {
    "frosted_"@ + hexadecimal(hash as nat) + ".png"@
}

/// The name under which a frosted wallpaper is kept, by a hash of its path and age.
pub fn cache_file_name(hash: u64) -> (name: String)
    ensures
        name@ == cache_name(hash),
{
    concat3("frosted_", hex_text(hash).as_str(), ".png")
}

/// `out` is the frosted form of a wallpaper file, and whether it should be kept.
pub open spec fn is_frosted_form(
    out: (WallpaperImage, bool),
    cached: Option<Vec<u8>>,
    bytes: Seq<u8>,
) -> bool {
    match cached {
        Some(kept) => out == (WallpaperImage::Encoded(kept), false),
        None => {
            &&& out.1 == decodes(bytes)
            &&& out.0 is Pixels == decodes(bytes)
            &&& match out.0 {
                WallpaperImage::Pixels(pixels) => is_frosted_file(pixels, bytes),
                WallpaperImage::Encoded(kept) => kept@ == bytes,
            }
        },
    }
}

/// The frosted form of a wallpaper file, and whether it was made just now and should be kept. One
/// that was kept before is used again; a file that does not decode is shown as it is.
pub fn frosted_handle(cached: Option<Vec<u8>>, bytes: &[u8]) -> (out: (WallpaperImage, bool))
    ensures
        is_frosted_form(out, cached, bytes@),
{
    if let Some(kept) = cached {
        return (WallpaperImage::Encoded(kept), false);
    }
    match decode(bytes) {
        Some(img) => {
            let pixels = frost_image(&img);
            proof {
                assert(is_picture_of(img, bytes@) && is_frosted(pixels, img));
            }
            (WallpaperImage::Pixels(pixels), true)
        },
        None => (WallpaperImage::Encoded(copy_bytes(bytes)), false),
    }
}

/// `out` is a wallpaper file as it is.
pub open spec fn is_sharp_form(out: WallpaperImage, bytes: Seq<u8>) -> bool {
    out is Encoded && out->Encoded_0@ == bytes
}

/// The sharp form of a wallpaper file: the file itself.
pub fn sharp_handle(bytes: &[u8]) -> (out: WallpaperImage)
    ensures
        is_sharp_form(out, bytes@),
{
    WallpaperImage::Encoded(copy_bytes(bytes))
}

// ---------------------------------------------------------------------------
// Avatars
// ---------------------------------------------------------------------------

/// The largest centred square of a picture.
#[derive(Debug, PartialEq, Eq)]
pub struct Square {
    pub x: u32,
    pub y: u32,
    pub side: u32,
}

/// The largest square that fits into `width` by `height`, centred, with the odd pixel to the
/// right and below.
pub open spec fn centred_square(width: u32, height: u32) -> Square {
    let side = if width <= height {
        width
    } else {
        height
    };
    Square { x: ((width - side) / 2) as u32, y: ((height - side) / 2) as u32, side }
}

/// The largest square that fits into `width` by `height`, centred.
pub fn avatar_crop(width: u32, height: u32) -> (square: Square)
    ensures
        square == centred_square(width, height),
        square.x + square.side <= width,
        square.y + square.side <= height,
{
    let side: u32 = if width <= height {
        width
    } else {
        height
    };
    Square { x: (width - side) / 2, y: (height - side) / 2, side }
}

/// `rgba` is the middle of a picture that is made of the bytes, at `size` by `size`.
pub open spec fn is_avatar(rgba: Seq<u8>, bytes: Seq<u8>, size: u32) -> bool {
    &&& rgba.len() == size * size * 4
    &&& exists|img: image::DynamicImage|
        #![trigger is_picture_of(img, bytes)]
        is_picture_of(img, bytes) && ({
            let square = centred_square(image_size(img).0, image_size(img).1);
            is_scaled_square(rgba, img, square.x, square.y, square.side, size)
        })
}

/// The middle of a picture at `size` by `size`, before its corners are masked; `None` if the
/// bytes do not decode.
pub fn avatar_pixels(bytes: &[u8], size: u32) -> (rgba: Option<Vec<u8>>)
    requires
        size * size * 4 <= usize::MAX,
    ensures
        rgba is Some == decodes(bytes@),
        rgba is Some ==> is_avatar(rgba->0@, bytes@, size),
{
    match decode(bytes) {
        Some(img) => {
            let (w, h) = size_of(&img);
            let square = avatar_crop(w, h);
            let rgba = crop_and_scale(&img, square.x, square.y, square.side, size);
            proof {
                assert(is_picture_of(img, bytes@));
            }
            Some(rgba)
        },
        None => None,
    }
}

/// Where a pixel of a square picture stands to the circle in it.
#[derive(Clone, Copy, Debug, PartialEq, Eq, Structural)]
pub enum Zone {
    /// It is kept.
    Inside,
    /// It fades.
    Edge,
    /// It is cut off.
    Outside,
}

/// The square of twice the distance of a pixel's middle from the middle of the picture.
pub open spec fn distance_squared(x: int, y: int, size: int) -> int {
    (2 * x + 1 - size) * (2 * x + 1 - size) + (2 * y + 1 - size) * (2 * y + 1 - size)
}

/// Where a pixel stands: outside from the radius of the circle on, and on its edge within two
/// pixels of that.
pub open spec fn mask_zone(x: int, y: int, size: int) -> Zone {
    if distance_squared(x, y, size) >= size * size {
        Zone::Outside
    } else if size < 4 || distance_squared(x, y, size) > (size - 4) * (size - 4) {
        Zone::Edge
    } else {
        Zone::Inside
    }
}

/// Where a pixel stands to the circle in its picture.
pub fn zone_of(x: u32, y: u32, size: u32) -> (zone: Zone)
    requires
        x < size,
        y < size,
    ensures
        zone == mask_zone(x as int, y as int, size as int),
{
    let s: i128 = size as i128;
    let dx: i128 = 2 * x as i128 + 1 - s;
    let dy: i128 = 2 * y as i128 + 1 - s;
    proof {
        assert(0 <= dx * dx <= s * s) by (nonlinear_arith)
            requires
                -s <= dx <= s,
        ;
        assert(0 <= dy * dy <= s * s) by (nonlinear_arith)
            requires
                -s <= dy <= s,
        ;
        assert(0 <= s * s <= 0x1_0000_0000 * 0x1_0000_0000) by (nonlinear_arith)
            requires
                0 <= s <= 0x1_0000_0000,
        ;
        assert(0 <= (s - 4) * (s - 4) <= 0x1_0000_0000 * 0x1_0000_0000) by (nonlinear_arith)
            requires
                0 <= s <= 0x1_0000_0000,
        ;
    }
    let d: i128 = dx * dx + dy * dy;
    if d >= s * s {
        Zone::Outside
    } else if s < 4 || d > (s - 4) * (s - 4) {
        Zone::Edge
    } else {
        Zone::Inside
    }
}

/// The alpha of every pixel outside the circle is zero; everything else is kept.
pub open spec fn masked(rgba: Seq<u8>, size: int) -> Seq<u8> {
    Seq::new(
        rgba.len(),
        |i: int|
            if i % 4 == 3 && mask_zone(i / 4 % size, i / 4 / size, size) == Zone::Outside {
                0
            } else {
                rgba[i]
            },
    )
}

/// Cuts off what is outside the circle in a square picture.
pub fn mask_corners(rgba: &mut Vec<u8>, size: u32)
    requires
        old(rgba)@.len() == size * size * 4,
    ensures
        final(rgba)@ == masked(old(rgba)@, size as int),
{
    let ghost before = rgba@;
    let len: usize = rgba.len();
    let mut i: usize = 0;
    while i < len
        invariant
            rgba@.len() == len,
            before.len() == len,
            len == size * size * 4,
            i <= len,
            forall|j: int| 0 <= j < i ==> #[trigger] rgba@[j] == masked(before, size as int)[j],
            forall|j: int| i <= j < len ==> #[trigger] rgba@[j] == before[j],
        decreases len - i,
    {
        if i % 4 == 3 {
            let pixel: usize = i / 4;
            proof {
                assert(size > 0) by (nonlinear_arith)
                    requires
                        i < size * size * 4,
                        i >= 0,
                        size >= 0,
                ;
                let s = size as int;
                let p = pixel as int;
                assert(p < s * s);
                vstd::arithmetic::div_mod::lemma_fundamental_div_mod(p, s);
                vstd::arithmetic::div_mod::lemma_mod_bound(p, s);
                assert(p / s < s) by (nonlinear_arith)
                    requires
                        p < s * s,
                        p == s * (p / s) + p % s,
                        0 <= p % s < s,
                        s > 0,
                ;
            }
            let x: u32 = (pixel % size as usize) as u32;
            let y: u32 = (pixel / size as usize) as u32;
            if let Zone::Outside = zone_of(x, y, size) {
                rgba[i] = 0;
            }
        }
        i = i + 1;
    }
    proof {
        assert(rgba@ == masked(before, size as int));
    }
}

/// The middle of a picture keeps its pixels: cutting to a circle takes off corners only.
pub proof fn law_mask_keeps_the_middle(size: int)
    requires
        size >= 6,
    ensures
        mask_zone(size / 2, size / 2, size) == Zone::Inside,
        mask_zone(0, 0, size) == Zone::Outside,
{
    let d = 2 * (size / 2) + 1 - size;
    assert(d * d <= 1) by (nonlinear_arith)
        requires
            0 <= d <= 1,
    ;
    assert((size - 4) * (size - 4) >= 4) by (nonlinear_arith)
        requires
            size >= 6,
    ;
    assert(size * size >= 36) by (nonlinear_arith)
        requires
            size >= 6,
    ;
    assert((1 - size) * (1 - size) + (1 - size) * (1 - size) >= size * size) by (nonlinear_arith)
        requires
            size >= 6,
    ;
}

// ---------------------------------------------------------------------------
// Laws of frosting
// ---------------------------------------------------------------------------

/// `b` is `a` darkened: of every colour 55 percent are left, rounded down, and alpha stays.
pub open spec fn is_darkened(a: Seq<u8>, b: Seq<u8>, w: int, h: int) -> bool {
    forall|x: int, y: int, c: int|
        0 <= x < w && 0 <= y < h && 0 <= c < 4 ==> {
            let after = #[trigger] b[channel_index(w, x, y, c)] as int;
            let before = a[channel_index(w, x, y, c)] as int;
            if c == 3 {
                after == before
            } else {
                100 * after <= 55 * before < 100 * (after + 1)
            }
        }
}

/// `b` is `a` after means over the thirteen pixels around each pixel, along rows and then columns.
pub open spec fn is_softened(a: Seq<u8>, b: Seq<u8>, w: int, h: int) -> bool {
    exists|between: Seq<u8>|
        #![trigger means_along_rows(a, between, w, h, 6)]
        means_along_rows(a, between, w, h, 6) && means_along_columns(between, b, w, h, 6)
}

/// What frosting comes to, whatever the size: three times every byte becomes the mean over the
/// thirteen pixels around it along rows and then along columns; and then the colours are darkened to
/// 55 percent.
pub proof fn law_frost_softens_three_times(rgba: Seq<u8>, w: nat, h: nat)
    requires
        w >= 2,
        h >= 2,
        rgba.len() == w * h * 4,
    ensures
        frosted(rgba, w, h).len() == rgba.len(),
        exists|once: Seq<u8>, twice: Seq<u8>, thrice: Seq<u8>|
            #![trigger is_softened(rgba, once, w as int, h as int), is_softened(once, twice, w as int, h as int), is_softened(twice, thrice, w as int, h as int)]
            is_softened(rgba, once, w as int, h as int) && is_softened(
                once,
                twice,
                w as int,
                h as int,
            ) && is_softened(twice, thrice, w as int, h as int) && is_darkened(
                thrice,
                frosted(rgba, w, h),
                w as int,
                h as int,
            ),
{
    let once = blurred(rgba, w, h, 6);
    let twice = blurred(once, w, h, 6);
    let thrice = blurred(twice, w, h, 6);
    law_blur_is_a_mean_of_means(rgba, w, h, 6);
    law_blur_is_a_mean_of_means(once, w, h, 6);
    law_blur_is_a_mean_of_means(twice, w, h, 6);
    assert(is_softened(rgba, once, w as int, h as int));
    assert(is_softened(once, twice, w as int, h as int));
    assert(is_softened(twice, thrice, w as int, h as int));
    lemma_darkened(thrice, w, h);
}

/// A picture of one row or one column is darkened only.
pub proof fn law_narrow_pictures_are_darkened(rgba: Seq<u8>, w: nat, h: nat)
    requires
        w < 2 || h < 2,
        rgba.len() == w * h * 4,
    ensures
        frosted(rgba, w, h).len() == rgba.len(),
        is_darkened(rgba, frosted(rgba, w, h), w as int, h as int),
{
    lemma_darkened(rgba, w, h);
}

proof fn lemma_darkened(rgba: Seq<u8>, w: nat, h: nat)
    requires
        rgba.len() == w * h * 4,
    ensures
        is_darkened(rgba, darkened_pixels(rgba), w as int, h as int),
{
    let out = darkened_pixels(rgba);
    assert forall|x: int, y: int, c: int| 0 <= x < w && 0 <= y < h && 0 <= c < 4 implies ({
        let after = #[trigger] out[channel_index(w as int, x, y, c)] as int;
        let before = rgba[channel_index(w as int, x, y, c)] as int;
        if c == 3 {
            after == before
        } else {
            100 * after <= 55 * before < 100 * (after + 1)
        }
    }) by {
        let i = channel_index(w as int, x, y, c);
        lemma_channel_index(w as int, h as int, x, y, c);
        let pixels = w * h;
        assert(i / 4 < pixels);
        assert((i / 4 + 1) * 4 <= rgba.len());
    }
}

/// A pixel of a frosted picture depends on the pixels up to eighteen away from it alone, and neither
/// on the size of the picture nor on its own place: where two pictures of any sizes are alike around
/// two pixels, these come out the same.
pub proof fn law_frost_depends_on_the_surroundings(
    a: Seq<u8>,
    wa: nat,
    ha: nat,
    xa: int,
    ya: int,
    b: Seq<u8>,
    wb: nat,
    hb: nat,
    xb: int,
    yb: int,
    c: int,
)
    requires
        a.len() == wa * ha * 4,
        b.len() == wb * hb * 4,
        alike_around(a, wa as int, ha as int, xa, ya, b, wb as int, hb as int, xb, yb, 18),
        0 <= c < 4,
    ensures
        frosted(a, wa, ha)[channel_index(wa as int, xa, ya, c)] == frosted(b, wb, hb)[channel_index(
            wb as int,
            xb,
            yb,
            c,
        )],
{
    let a1 = blurred(a, wa, ha, 6);
    let b1 = blurred(b, wb, hb, 6);
    let a2 = blurred(a1, wa, ha, 6);
    let b2 = blurred(b1, wb, hb, 6);
    let a3 = blurred(a2, wa, ha, 6);
    let b3 = blurred(b2, wb, hb, 6);
    law_blur_depends_on_the_surroundings(a, wa, ha, xa, ya, b, wb, hb, xb, yb, 6, 18);
    law_blur_depends_on_the_surroundings(a1, wa, ha, xa, ya, b1, wb, hb, xb, yb, 6, 12);
    law_blur_depends_on_the_surroundings(a2, wa, ha, xa, ya, b2, wb, hb, xb, yb, 6, 6);
    assert(a3[channel_index(wa as int, xa + 0, ya + 0, c)] == b3[channel_index(
        wb as int,
        xb + 0,
        yb + 0,
        c,
    )]);
    lemma_channel_index(wa as int, ha as int, xa, ya, c);
    lemma_channel_index(wb as int, hb as int, xb, yb, c);
    let (i, j) = (channel_index(wa as int, xa, ya, c), channel_index(wb as int, xb, yb, c));
    assert(i / 4 < wa * ha && j / 4 < wb * hb);
}

/// A wallpaper is frosted at a quarter of its width and height, rounded down, but never at nothing.
pub proof fn law_frosted_size_is_a_quarter(out: Pixels, img: image::DynamicImage)
    requires
        is_frosted(out, img),
    ensures
        out.width >= 1 && out.height >= 1,
        image_size(img).0 >= 4 ==> 4 * out.width <= image_size(img).0 < 4 * out.width + 4,
        image_size(img).1 >= 4 ==> 4 * out.height <= image_size(img).1 < 4 * out.height + 4,
        image_size(img).0 < 4 ==> out.width == 1,
        image_size(img).1 < 4 ==> out.height == 1,
        out.rgba@.len() == out.width * out.height * 4,
        out.rgba@ == frosted(
            shrunk_rgba(img, out.width, out.height),
            out.width as nat,
            out.height as nat,
        ),
{
}

}
