//! What holds of wallpapers and of the pictures of accounts.
use crate::frost::{
    cache_name, centred_square, decodes, distance_squared, image_size, is_avatar, is_frosted,
    is_frosted_form, is_picture_of, is_scaled_square, is_sharp_form, mask_zone, masked, quarter,
    WallpaperImage, Zone,
};
use crate::text::hexadecimal;
use crate::text_laws::law_hexadecimals_stand_for_the_number;
use vstd::prelude::*;

verus! {

/// A picture is cut to the largest square in its middle: as high as it or as wide as it, and with as
/// much left over on one side as on the other, but for an odd pixel.
pub proof fn law_pictures_are_cut_to_their_middle(width: u32, height: u32)
    ensures
        ({
            let square = centred_square(width, height);
            let right = width - square.side - square.x;
            let below = height - square.side - square.y;
            &&& square.side == width || square.side == height
            &&& square.side <= width && square.side <= height
            &&& 0 <= right - square.x <= 1
            &&& 0 <= below - square.y <= 1
        }),
{
}

/// Where the byte of a channel of a pixel stands in a square picture.
pub open spec fn byte_of(size: int, x: int, y: int, c: int) -> int {
    (y * size + x) * 4 + c
}

/// Masking takes away the pixels whose middle is not in the circle that touches the sides of the
/// picture, and does nothing else: colours stay, and so do all pixels in the circle.
pub proof fn law_masking_leaves_the_circle(rgba: Seq<u8>, size: int, x: int, y: int, c: int)
    requires
        rgba.len() == size * size * 4,
        0 <= x < size,
        0 <= y < size,
        0 <= c < 4,
    ensures
        ({
            let i = byte_of(size, x, y, c);
            let (dx, dy) = (2 * x + 1 - size, 2 * y + 1 - size);
            &&& 0 <= i < rgba.len()
            &&& masked(rgba, size).len() == rgba.len()
            &&& c < 3 ==> masked(rgba, size)[i] == rgba[i]
            &&& c == 3 && dx * dx + dy * dy < size * size ==> masked(rgba, size)[i] == rgba[i]
            &&& c == 3 && dx * dx + dy * dy >= size * size ==> masked(rgba, size)[i] == 0
        }),
{
    let p = y * size + x;
    let i = byte_of(size, x, y, c);
    assert(0 <= p < size * size) by (nonlinear_arith)
        requires
            p == y * size + x,
            0 <= x < size,
            0 <= y < size,
    ;
    assert(i / 4 == p && i % 4 == c);
    assert(y * size == size * y) by (nonlinear_arith);
    vstd::arithmetic::div_mod::lemma_fundamental_div_mod_converse(p, size, y, x);
    assert(p / size == y && p % size == x);
}

/// The circle is the same from every side.
pub proof fn law_the_circle_is_round(size: int, x: int, y: int)
    ensures
        mask_zone(x, y, size) == mask_zone(y, x, size),
        mask_zone(x, y, size) == mask_zone(size - 1 - x, y, size),
        mask_zone(x, y, size) == mask_zone(x, size - 1 - y, size),
{
    let dx = 2 * x + 1 - size;
    let dy = 2 * y + 1 - size;
    let ex = 2 * (size - 1 - x) + 1 - size;
    let ey = 2 * (size - 1 - y) + 1 - size;
    assert(ex * ex == dx * dx) by (nonlinear_arith)
        requires
            ex == -dx,
    ;
    assert(ey * ey == dy * dy) by (nonlinear_arith)
        requires
            ey == -dy,
    ;
    assert(distance_squared(x, y, size) == distance_squared(y, x, size));
    assert(distance_squared(size - 1 - x, y, size) == distance_squared(x, y, size));
    assert(distance_squared(x, size - 1 - y, size) == distance_squared(x, y, size));
}

/// The edge of the circle is two pixels wide: a pixel is outside from the radius on, and inside up to
/// two pixels from it.
pub proof fn law_the_edge_is_two_pixels_wide(size: int, x: int, y: int)
    requires
        size >= 4,
    ensures
        ({
            let (dx, dy) = (2 * x + 1 - size, 2 * y + 1 - size);
            let twice = dx * dx + dy * dy;
            let inner = size - 2 * 2;
            &&& twice >= size * size <==> mask_zone(x, y, size) == Zone::Outside
            &&& twice <= inner * inner ==> mask_zone(x, y, size) == Zone::Inside || twice >= size
                * size
            &&& inner * inner < twice < size * size ==> mask_zone(x, y, size) == Zone::Edge
        }),
{
}

/// A wallpaper file is frosted only once: what was kept is shown as it was kept. A file that is a
/// picture is shown at a quarter of its size, and kept; any other file is shown as it is, and not
/// kept.
pub proof fn law_wallpapers_are_frosted_once(
    out: (WallpaperImage, bool),
    cached: Option<Vec<u8>>,
    bytes: Seq<u8>,
)
    requires
        is_frosted_form(out, cached, bytes),
    ensures
        cached is Some ==> !out.1 && out.0 is Encoded && out.0->Encoded_0@ == cached->0@,
        cached is None && !decodes(bytes) ==> !out.1 && out.0 is Encoded && out.0->Encoded_0@ == bytes,
        cached is None && decodes(bytes) ==> out.1 && out.0 is Pixels && exists|
            img: image::DynamicImage,
        |
            #![trigger is_picture_of(img, bytes)]
            is_picture_of(img, bytes) && is_frosted(out.0->Pixels_0, img),
{
}

/// A side is shrunk to a quarter, rounded down, but never to nothing.
pub proof fn law_sides_are_shrunk_to_a_quarter(side: u32)
    ensures
        quarter(side) >= 1,
        side >= 4 ==> 4 * quarter(side) <= side < 4 * quarter(side) + 4,
        side < 4 ==> quarter(side) == 1,
{
}

/// A sharp wallpaper is its file, byte for byte.
pub proof fn law_sharp_wallpapers_are_their_file(out: WallpaperImage, bytes: Seq<u8>, i: int)
    requires
        is_sharp_form(out, bytes),
        0 <= i < bytes.len(),
    ensures
        out is Encoded,
        out->Encoded_0@.len() == bytes.len(),
        out->Encoded_0@[i] == bytes[i],
{
}

/// Wallpapers with different hashes are kept under different names, all of which end in `.png`.
pub proof fn law_kept_wallpapers_do_not_collide(one: u64, other: u64)
    requires
        one != other,
    ensures
        cache_name(one) != cache_name(other),
        cache_name(one) == "frosted_"@ + hexadecimal(one as nat) + ".png"@,
{
    law_hexadecimals_stand_for_the_number(one as nat);
    law_hexadecimals_stand_for_the_number(other as nat);
    let (a, b) = (hexadecimal(one as nat), hexadecimal(other as nat));
    let (start, end) = ("frosted_"@.len() as int, ".png"@.len() as int);
    if cache_name(one) == cache_name(other) {
        let n = cache_name(one).len() as int;
        assert(cache_name(one).subrange(start, n - end) == a);
        assert(cache_name(other).subrange(start, n - end) == b);
    }
}

/// The picture of an account is cut from the middle of its file: a square with a side of the picture,
/// centred but for an odd pixel.
pub proof fn law_pictures_of_accounts_are_centred(rgba: Seq<u8>, bytes: Seq<u8>, size: u32)
    requires
        is_avatar(rgba, bytes, size),
    ensures
        rgba.len() == size * size * 4,
        exists|img: image::DynamicImage, x: u32, y: u32, side: u32|
            #![trigger is_scaled_square(rgba, img, x, y, side, size)]
            {
                let (width, height) = image_size(img);
                &&& is_picture_of(img, bytes)
                &&& is_scaled_square(rgba, img, x, y, side, size)
                &&& side == width || side == height
                &&& side <= width && side <= height
                &&& 0 <= (width - side - x) - x <= 1
                &&& 0 <= (height - side - y) - y <= 1
            },
{
    let img = choose|img: image::DynamicImage|
        #![trigger is_picture_of(img, bytes)]
        is_picture_of(img, bytes) && ({
            let square = centred_square(image_size(img).0, image_size(img).1);
            is_scaled_square(rgba, img, square.x, square.y, square.side, size)
        });
    let square = centred_square(image_size(img).0, image_size(img).1);
    law_pictures_are_cut_to_their_middle(image_size(img).0, image_size(img).1);
    assert(is_scaled_square(rgba, img, square.x, square.y, square.side, size));
}

}
