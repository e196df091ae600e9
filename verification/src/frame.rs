//! The frame buffer and the three ways to write into it: filling it,
//! copying a whole image, and blitting one tile.
//!
//! A frame is `WIDTH` by `HEIGHT` pixels of four bytes each, red, green,
//! blue and alpha, row by row from the top. Tiles come out of their atlas
//! with their rows bottom-up, so a blit reads them from the last row to the
//! first.

use crate::bitmap::{bitmap_pixels, is_sound, pixel_at, sound};
use crate::tile::{same_rgb, Rgb};
use crate::tuning::{HEIGHT, TILE_SCALE, WIDTH};
use rustbitmap::BitMap;
use vstd::prelude::*;

verus! {

/// Number of bytes in a frame: `WIDTH * HEIGHT * 4`.
pub const FRAME_BYTES: usize = 153600;

/// The pixel column that byte `k` of a frame belongs to.
pub open spec fn byte_column(k: int) -> int {
    (k / 4) % (WIDTH as int)
}

/// The pixel row that byte `k` of a frame belongs to.
pub open spec fn byte_row(k: int) -> int {
    (k / 4) / (WIDTH as int)
}

/// The value that byte `k` of a frame takes in a pixel of colour `colour`:
/// red, green or blue by the byte's place in its pixel, and full alpha.
pub open spec fn channel(colour: (u8, u8, u8), k: int) -> u8 {
    if k % 4 == 0 {
        colour.0
    } else if k % 4 == 1 {
        colour.1
    } else if k % 4 == 2 {
        colour.2
    } else {
        255
    }
}

/// The colour that a tile uses for the pixels it leaves out.
pub open spec fn is_key(colour: (u8, u8, u8)) -> bool {
    colour == (132u8, 126u8, 135u8)
}

/// The colour of an empty frame.
pub open spec fn backdrop() -> (u8, u8, u8) {
    (175u8, 175u8, 175u8)
}

/// A frame with the pixel at `x`, `y` in colour `colour`.
pub open spec fn with_pixel(frame: Seq<u8>, x: int, y: int, colour: (u8, u8, u8)) -> Seq<u8> {
    Seq::new(
        frame.len(),
        |k: int|
            if byte_column(k) == x && byte_row(k) == y {
                channel(colour, k)
            } else {
                frame[k]
            },
    )
}

/// A frame filled with the backdrop colour.
pub open spec fn cleared(frame: Seq<u8>) -> Seq<u8> {
    Seq::new(frame.len(), |k: int| channel(backdrop(), k))
}

/// Byte `k` of a frame after an image has been copied onto it pixel for
/// pixel; where the image has no pixel the frame keeps its own.
pub open spec fn image_byte(frame: Seq<u8>, image: Map<(int, int), (u8, u8, u8)>, k: int) -> u8 {
    let at = (byte_column(k), byte_row(k));
    if image.dom().contains(at) {
        channel(image[at], k)
    } else {
        frame[k]
    }
}

/// A frame after an image has been copied onto it.
pub open spec fn with_image(frame: Seq<u8>, image: Map<(int, int), (u8, u8, u8)>) -> Seq<u8> {
    Seq::new(frame.len(), |k: int| image_byte(frame, image, k))
}

/// Byte `k` of a frame after a tile has been blitted with its top left
/// corner at `left`, `top`.
///
/// The pixel in column `c` and row `r` of the blit takes the colour that
/// the tile holds at column `c` of its row `TILE_SCALE - 1 - r`, unless the
/// tile has no such pixel or holds the key colour there.
pub open spec fn tile_byte(
    frame: Seq<u8>,
    tile: Map<(int, int), (u8, u8, u8)>,
    left: int,
    top: int,
    k: int,
) -> u8 {
    let c = byte_column(k) - left;
    let r = byte_row(k) - top;
    let at = (c, TILE_SCALE - 1 - r);
    if 0 <= c < TILE_SCALE && 0 <= r < TILE_SCALE && tile.dom().contains(at) && !is_key(tile[at]) {
        channel(tile[at], k)
    } else {
        frame[k]
    }
}

/// A frame after a tile has been blitted with its top left corner at
/// `left`, `top`. What falls outside the frame is left out.
pub open spec fn with_tile(
    frame: Seq<u8>,
    tile: Map<(int, int), (u8, u8, u8)>,
    left: int,
    top: int,
) -> Seq<u8> {
    Seq::new(frame.len(), |k: int| tile_byte(frame, tile, left, top, k))
}

/// Whether byte `k` lies in a part of the frame that a pass over it row by
/// row has been through, once it has done `rows` full rows from row `top`
/// and `cols` columns from column `left` of the row after them.
pub open spec fn passed(k: int, left: int, top: int, rows: int, cols: int) -> bool {
    byte_row(k) - top < rows || (byte_row(k) - top == rows && byte_column(k) - left < cols)
}

/// The frame buffer.
pub struct Frame {
    bytes: Vec<u8>,
}

impl View for Frame {
    type V = Seq<u8>;

    closed spec fn view(&self) -> Seq<u8> {
        self.bytes@
    }
}

impl Frame {
    /// A frame holds exactly `FRAME_BYTES` bytes.
    pub open spec fn wf(&self) -> bool {
        self@.len() == FRAME_BYTES
    }

    /// A frame of transparent black.
    pub fn new() -> (frame: Frame)
        ensures
            frame.wf(),
            forall|k: int| 0 <= k < FRAME_BYTES ==> frame@[k] == 0,
    {
        let mut bytes: Vec<u8> = Vec::new();
        let mut k: usize = 0;
        while k < FRAME_BYTES
            invariant
                k <= FRAME_BYTES,
                bytes.len() == k,
                forall|j: int| 0 <= j < k ==> bytes[j] == 0,
            decreases FRAME_BYTES - k,
        {
            bytes.push(0);
            k += 1;
        }
        Frame { bytes }
    }

    /// The bytes of the frame, for the presenter to copy.
    pub fn as_bytes(&self) -> (bytes: &Vec<u8>)
        ensures
            bytes@ == self@,
    {
        &self.bytes
    }

    /// Gives the pixel at `x`, `y` the colour `colour`, opaque.
    pub fn put_pixel(&mut self, x: u32, y: u32, colour: Rgb)
        requires
            old(self).wf(),
            x < WIDTH,
            y < HEIGHT,
        ensures
            final(self).wf(),
            final(self)@ == with_pixel(
                old(self)@,
                x as int,
                y as int,
                (colour.red, colour.green, colour.blue),
            ),
    {
        let index: usize = (4 * (y * WIDTH + x)) as usize;
        self.bytes.set(index, colour.red);
        self.bytes.set(index + 1, colour.green);
        self.bytes.set(index + 2, colour.blue);
        self.bytes.set(index + 3, 255);
        assert(self@ =~= with_pixel(
            old(self)@,
            x as int,
            y as int,
            (colour.red, colour.green, colour.blue),
        ));
    }
}

/// Fills the frame with the backdrop colour.
pub fn clear(frame: &mut Frame)
    requires
        old(frame).wf(),
    ensures
        final(frame).wf(),
        final(frame)@ == cleared(old(frame)@),
{
    let mut i: usize = 0;
    while i < FRAME_BYTES / 4
        invariant
            frame.wf(),
            i <= FRAME_BYTES / 4,
            forall|k: int| 0 <= k < 4 * i ==> frame@[k] == channel(backdrop(), k),
        decreases FRAME_BYTES / 4 - i,
    {
        frame.bytes.set(4 * i, 175);
        frame.bytes.set(4 * i + 1, 175);
        frame.bytes.set(4 * i + 2, 175);
        frame.bytes.set(4 * i + 3, 255);
        i += 1;
    }
    assert(frame@ =~= cleared(old(frame)@));
}

/// Copies an image onto the frame, pixel for pixel from the top left.
/// Where the image is smaller than the frame, the rest of the frame stays
/// as it is.
pub fn draw_image(frame: &mut Frame, image: &BitMap)
    requires
        old(frame).wf(),
        sound(*image),
    ensures
        final(frame).wf(),
        final(frame)@ == with_image(old(frame)@, bitmap_pixels(*image)),
{
    let ghost before = frame@;
    let ghost source = bitmap_pixels(*image);
    let mut y: u32 = 0;
    while y < HEIGHT
        invariant
            frame.wf(),
            before.len() == FRAME_BYTES,
            source == bitmap_pixels(*image),
            sound(*image),
            y <= HEIGHT,
            forall|k: int|
                0 <= k < FRAME_BYTES ==> frame@[k] == (if passed(k, 0, 0, y as int, 0) {
                    image_byte(before, source, k)
                } else {
                    before[k]
                }),
        decreases HEIGHT - y,
    {
        let mut x: u32 = 0;
        while x < WIDTH
            invariant
                frame.wf(),
                before.len() == FRAME_BYTES,
                source == bitmap_pixels(*image),
                sound(*image),
            sound(*image),
                y < HEIGHT,
                x <= WIDTH,
                forall|k: int|
                    0 <= k < FRAME_BYTES ==> frame@[k] == (if passed(k, 0, 0, y as int, x as int) {
                        image_byte(before, source, k)
                    } else {
                        before[k]
                    }),
            decreases WIDTH - x,
        {
            match pixel_at(image, x, y) {
                Some(colour) => {
                    frame.put_pixel(x, y, colour);
                },
                None => {},
            }
            x += 1;
        }
        y += 1;
    }
    assert(frame@ =~= with_image(before, source));
}

/// Blits a tile onto the frame with its top left corner at `coords`.
///
/// The tile is read bottom-up: row `r` of the blit comes from row
/// `TILE_SCALE - 1 - r` of the tile. Pixels in the key colour, pixels that
/// the tile does not have, and pixels that fall outside the frame are left
/// out.
pub fn draw_tile(frame: &mut Frame, tile: &BitMap, coords: (i32, i32))
    requires
        old(frame).wf(),
        sound(*tile),
    ensures
        final(frame).wf(),
        final(frame)@ == with_tile(
            old(frame)@,
            bitmap_pixels(*tile),
            coords.0 as int,
            coords.1 as int,
        ),
{
    let (start_x, start_y) = coords;
    let ghost before = frame@;
    let ghost source = bitmap_pixels(*tile);
    let mut r: u32 = 0;
    while r < TILE_SCALE
        invariant
            frame.wf(),
            before.len() == FRAME_BYTES,
            source == bitmap_pixels(*tile),
            sound(*tile),
            r <= TILE_SCALE,
            forall|k: int|
                0 <= k < FRAME_BYTES ==> frame@[k] == (if passed(
                    k,
                    start_x as int,
                    start_y as int,
                    r as int,
                    0,
                ) {
                    tile_byte(before, source, start_x as int, start_y as int, k)
                } else {
                    before[k]
                }),
        decreases TILE_SCALE - r,
    {
        let y: i64 = start_y as i64 + r as i64;
        let mut c: u32 = 0;
        while c < TILE_SCALE
            invariant
                frame.wf(),
                before.len() == FRAME_BYTES,
                source == bitmap_pixels(*tile),
                sound(*tile),
            sound(*tile),
                r < TILE_SCALE,
                c <= TILE_SCALE,
                y == start_y + r,
                forall|k: int|
                    0 <= k < FRAME_BYTES ==> frame@[k] == (if passed(
                        k,
                        start_x as int,
                        start_y as int,
                        r as int,
                        c as int,
                    ) {
                        tile_byte(before, source, start_x as int, start_y as int, k)
                    } else {
                        before[k]
                    }),
            decreases TILE_SCALE - c,
        {
            let x: i64 = start_x as i64 + c as i64;
            if 0 <= y && y < HEIGHT as i64 && 0 <= x && x < WIDTH as i64 {
                match pixel_at(tile, c, TILE_SCALE - 1 - r) {
                    Some(colour) => {
                        if !same_rgb(&colour, &Rgb::new(132, 126, 135)) {
                            frame.put_pixel(x as u32, y as u32, colour);
                        }
                    },
                    None => {},
                }
            }
            c += 1;
        }
        r += 1;
    }
    assert(frame@ =~= with_tile(before, source, start_x as int, start_y as int));
}

/// Copies an image onto the frame if the image is sound, and tells whether
/// it did; an image that is not sound leaves the frame as it is.
pub fn try_draw_image(frame: &mut Frame, image: &BitMap) -> (drawn: bool)
    requires
        old(frame).wf(),
    ensures
        final(frame).wf(),
        drawn == sound(*image),
        final(frame)@ == (if drawn {
            with_image(old(frame)@, bitmap_pixels(*image))
        } else {
            old(frame)@
        }),
{
    if is_sound(image) {
        draw_image(frame, image);
        true
    } else {
        false
    }
}

/// Blits a tile onto the frame if the tile is sound, and tells whether it
/// did; a tile that is not sound leaves the frame as it is.
pub fn try_draw_tile(frame: &mut Frame, tile: &BitMap, coords: (i32, i32)) -> (drawn: bool)
    requires
        old(frame).wf(),
    ensures
        final(frame).wf(),
        drawn == sound(*tile),
        final(frame)@ == (if drawn {
            with_tile(old(frame)@, bitmap_pixels(*tile), coords.0 as int, coords.1 as int)
        } else {
            old(frame)@
        }),
{
    if is_sound(tile) {
        draw_tile(frame, tile, coords);
        true
    } else {
        false
    }
}

} // verus!
