//! The decoded images that the engine reads its assets from.
//!
//! Images are values of `rustbitmap`'s `BitMap`. Verus does not look inside
//! that crate: what this module states about it is taken on trust from its
//! source. Everything else in the library is proved on top of these items.

use crate::tile::Rgb;
use rustbitmap::BitMap;
use vstd::prelude::*;

verus! {

/// `rustbitmap`'s image type, taken as it is. Nothing is known of a value
/// of it but what the items below state.
#[verifier::external_type_specification]
#[verifier::external_body]
pub struct ExBitMap(BitMap);

/// The pixels of an image: the colour at each coordinate that the image
/// covers, column first, as `BitMap::get_pixel` addresses them.
pub uninterp spec fn bitmap_pixels(image: BitMap) -> Map<(int, int), (u8, u8, u8)>;

/// The width of an image, as `BitMap::get_width` tells it.
pub uninterp spec fn bitmap_width(image: BitMap) -> nat;

/// The height of an image, as `BitMap::get_height` tells it.
pub uninterp spec fn bitmap_height(image: BitMap) -> nat;

/// Number of pixels that an image stores, as the length of
/// `BitMap::get_pixels` tells it.
pub uninterp spec fn bitmap_stored(image: BitMap) -> nat;

/// Whether an image stores as many pixels as its width and height announce,
/// and no more than a `u32` can number. An image read from a damaged file
/// may store fewer; reading a pixel of such an image is not safe.
pub open spec fn sound(image: BitMap) -> bool {
    &&& bitmap_stored(image) == bitmap_width(image) * bitmap_height(image)
    &&& bitmap_width(image) * bitmap_height(image) <= u32::MAX
}

/// The colour that a triple of channels stands for.
pub open spec fn rgb_of(channels: (u8, u8, u8)) -> Rgb {
    Rgb { red: channels.0, green: channels.1, blue: channels.2 }
}

/// What `crop` cuts out of `source` when it starts at row 0: the columns
/// from `from_x` up to `to_x` and the rows up to `to_y`, with the rows in
/// reverse order.
pub open spec fn cropped(
    source: Map<(int, int), (u8, u8, u8)>,
    from_x: int,
    to_x: int,
    to_y: int,
) -> Map<(int, int), (u8, u8, u8)> {
    Map::new(
        |p: (int, int)| 0 <= p.0 < to_x - from_x && 0 <= p.1 < to_y,
        |p: (int, int)| source[(from_x + p.0, to_y - 1 - p.1)],
    )
}

/// The width of an image, from `BitMap::get_width`.
///
/// Trusted: the call hands out the width that the image was made with.
#[verifier::external_body]
pub(crate) fn width_of(image: &BitMap) -> (width: u32)
    ensures
        width == bitmap_width(*image),
{
    image.get_width()
}

/// The height of an image, from `BitMap::get_height`.
///
/// Trusted: the call hands out the height that the image was made with.
#[verifier::external_body]
pub(crate) fn height_of(image: &BitMap) -> (height: u32)
    ensures
        height == bitmap_height(*image),
{
    image.get_height()
}

/// Number of pixels that an image stores, from `BitMap::get_pixels`.
///
/// Trusted: the call hands out the image's own list of pixels, whose length
/// is the number stored.
#[verifier::external_body]
pub(crate) fn stored_of(image: &BitMap) -> (count: usize)
    ensures
        count == bitmap_stored(*image),
{
    image.get_pixels().len()
}

/// Whether an image is sound: see `sound`.
pub fn is_sound(image: &BitMap) -> (ok: bool)
    ensures
        ok == sound(*image),
{
    let width = width_of(image);
    let height = height_of(image);
    let stored = stored_of(image);
    assert(width * height <= u32::MAX * u32::MAX) by (nonlinear_arith)
        requires
            0 <= width <= u32::MAX,
            0 <= height <= u32::MAX,
    ;
    let area: u64 = width as u64 * height as u64;
    area <= u32::MAX as u64 && stored as u64 == area
}

/// Reads one pixel with `BitMap::get_pixel` and takes its colour with
/// `Rgba::get_red`, `Rgba::get_green` and `Rgba::get_blue`; the alpha
/// channel is dropped.
///
/// Trusted: on a sound image the call answers exactly for the coordinates
/// that the image covers, and with the colour stored there. On an image
/// that stores fewer pixels than it announces the call may index past the
/// end, so such an image is left out.
#[verifier::external_body]
pub(crate) fn pixel_at(image: &BitMap, x: u32, y: u32) -> (pixel: Option<Rgb>)
    requires
        sound(*image),
    ensures
        pixel.is_some() == bitmap_pixels(*image).dom().contains((x as int, y as int)),
        pixel matches Some(c) ==> c == rgb_of(bitmap_pixels(*image)[(x as int, y as int)]),
{
    match image.get_pixel(x, y) {
        Some(p) => Some(Rgb { red: p.get_red(), green: p.get_green(), blue: p.get_blue() }),
        None => None,
    }
}

/// Cuts a rectangle out of an image with `BitMap::crop`.
///
/// Trusted: the call fails when `from_x` lies right of `to_x`; it hands out
/// an empty image when the rectangle has no area; otherwise it succeeds
/// exactly when the source covers the rectangle's far corner, and the
/// result then holds the rectangle with its rows in reverse order, as
/// `cropped` says, and is sound, since the crate checks its pixel count.
/// The crate computes the area in `u32`, only cuts rightly from row 0, and
/// reads the source's pixels unchecked: the conditions keep to that.
#[verifier::external_body]
pub(crate) fn crop(image: &BitMap, from_x: u32, from_y: u32, to_x: u32, to_y: u32) -> (cut: Result<
    BitMap,
    &'static str,
>)
    requires
        sound(*image),
        from_y == 0,
        from_x <= to_x ==> (to_x - from_x) * to_y <= u32::MAX,
    ensures
        cut.is_ok() == (from_x <= to_x && ((to_x - from_x) * to_y == 0 || bitmap_pixels(
            *image,
        ).dom().contains((to_x - 1, to_y - 1)))),
        cut matches Ok(out) ==> bitmap_pixels(out) == cropped(
            bitmap_pixels(*image),
            from_x as int,
            to_x as int,
            to_y as int,
        ),
        cut matches Ok(out) ==> sound(out),
{
    image.crop(from_x, from_y, to_x, to_y)
}

} // verus!
