use endless_runner::bitmap::is_sound;
use endless_runner::frame::{clear, draw_image, draw_tile, try_draw_image, try_draw_tile, Frame};
use endless_runner::tile::Rgb;
use rustbitmap::{BitMap, Rgba};

fn pixel(frame: &Frame, x: usize, y: usize) -> (u8, u8, u8, u8) {
    let b = frame.as_bytes();
    let i = 4 * (y * 240 + x);
    (b[i], b[i + 1], b[i + 2], b[i + 3])
}

fn numbered_tile() -> BitMap {
    let mut tile = BitMap::new(10, 10);
    for y in 0..10u32 {
        for x in 0..10u32 {
            tile.set_pixel(x, y, Rgba::rgb(10 * x as u8, 10 * y as u8, 7)).unwrap();
        }
    }
    tile
}

#[test]
fn a_new_frame_is_transparent_black() {
    let frame = Frame::new();
    assert_eq!(frame.as_bytes().len(), 240 * 160 * 4);
    assert!(frame.as_bytes().iter().all(|b| *b == 0));
}

#[test]
fn put_pixel_writes_four_bytes() {
    let mut frame = Frame::new();
    frame.put_pixel(3, 2, Rgb::new(9, 8, 7));
    assert_eq!(pixel(&frame, 3, 2), (9, 8, 7, 255));
    let i = 4 * (2 * 240 + 3);
    for (k, b) in frame.as_bytes().iter().enumerate() {
        if k < i || k >= i + 4 {
            assert_eq!(*b, 0);
        }
    }
    frame.put_pixel(239, 159, Rgb::new(1, 2, 3));
    assert_eq!(pixel(&frame, 239, 159), (1, 2, 3, 255));
}

#[test]
fn clearing_fills_the_frame_with_the_backdrop() {
    let mut frame = Frame::new();
    frame.put_pixel(5, 5, Rgb::new(1, 2, 3));
    clear(&mut frame);
    for y in 0..160 {
        for x in 0..240 {
            assert_eq!(pixel(&frame, x, y), (175, 175, 175, 255));
        }
    }
}

#[test]
fn a_tile_is_blitted_bottom_up() {
    let mut frame = Frame::new();
    let tile = numbered_tile();
    draw_tile(&mut frame, &tile, (20, 30));
    for r in 0..10usize {
        for c in 0..10usize {
            assert_eq!(
                pixel(&frame, 20 + c, 30 + r),
                (10 * c as u8, 10 * (9 - r) as u8, 7, 255)
            );
        }
    }
    assert_eq!(pixel(&frame, 19, 30), (0, 0, 0, 0));
    assert_eq!(pixel(&frame, 30, 30), (0, 0, 0, 0));
    assert_eq!(pixel(&frame, 20, 29), (0, 0, 0, 0));
    assert_eq!(pixel(&frame, 20, 40), (0, 0, 0, 0));
}

#[test]
fn the_key_colour_is_left_out() {
    let mut frame = Frame::new();
    clear(&mut frame);
    let mut tile = numbered_tile();
    tile.set_pixel(3, 4, Rgba::rgb(132, 126, 135)).unwrap();
    tile.set_pixel(4, 4, Rgba::rgb(132, 126, 134)).unwrap();
    draw_tile(&mut frame, &tile, (0, 0));
    assert_eq!(pixel(&frame, 3, 5), (175, 175, 175, 255));
    assert_eq!(pixel(&frame, 4, 5), (132, 126, 134, 255));
    assert_eq!(pixel(&frame, 3, 4), (30, 50, 7, 255));
}

#[test]
fn a_tile_is_clipped_at_the_edges() {
    let tile = numbered_tile();
    let mut frame = Frame::new();
    draw_tile(&mut frame, &tile, (-5, -5));
    assert_eq!(pixel(&frame, 0, 0), (50, 40, 7, 255));
    assert_eq!(pixel(&frame, 4, 4), (90, 0, 7, 255));
    assert_eq!(pixel(&frame, 5, 0), (0, 0, 0, 0));
    assert_eq!(pixel(&frame, 0, 5), (0, 0, 0, 0));
    let mut other = Frame::new();
    draw_tile(&mut other, &tile, (235, 155));
    assert_eq!(pixel(&other, 235, 155), (0, 90, 7, 255));
    assert_eq!(pixel(&other, 239, 159), (40, 50, 7, 255));
    assert_eq!(pixel(&other, 234, 155), (0, 0, 0, 0));
    assert_eq!(pixel(&other, 0, 156), (0, 0, 0, 0));
}

#[test]
fn a_tile_far_off_the_frame_draws_nothing() {
    let tile = numbered_tile();
    let mut frame = Frame::new();
    for coords in [
        (240, 0),
        (0, 160),
        (-10, 0),
        (0, -10),
        (1000, 1000),
        (i32::MAX, i32::MAX),
        (i32::MIN, i32::MIN),
        (i32::MAX, 0),
        (0, i32::MIN),
    ] {
        draw_tile(&mut frame, &tile, coords);
    }
    assert!(frame.as_bytes().iter().all(|b| *b == 0));
}

#[test]
fn a_small_tile_draws_what_it_has() {
    let mut tile = BitMap::new(4, 3);
    for y in 0..3u32 {
        for x in 0..4u32 {
            tile.set_pixel(x, y, Rgba::rgb(x as u8 + 1, y as u8 + 1, 0)).unwrap();
        }
    }
    let mut frame = Frame::new();
    draw_tile(&mut frame, &tile, (0, 0));
    assert_eq!(pixel(&frame, 0, 9), (1, 1, 0, 255));
    assert_eq!(pixel(&frame, 3, 7), (4, 3, 0, 255));
    assert_eq!(pixel(&frame, 0, 6), (0, 0, 0, 0));
    assert_eq!(pixel(&frame, 4, 9), (0, 0, 0, 0));
    assert_eq!(pixel(&frame, 0, 0), (0, 0, 0, 0));
}

#[test]
fn an_image_is_copied_pixel_for_pixel() {
    let mut image = BitMap::new(240, 160);
    for y in 0..160u32 {
        for x in 0..240u32 {
            image.set_pixel(x, y, Rgba::rgba(x as u8, y as u8, (x + y) as u8, 30)).unwrap();
        }
    }
    let mut frame = Frame::new();
    draw_image(&mut frame, &image);
    for y in 0..160usize {
        for x in 0..240usize {
            assert_eq!(pixel(&frame, x, y), (x as u8, y as u8, (x + y) as u8, 255));
        }
    }
}

#[test]
fn a_small_image_leaves_the_rest_of_the_frame() {
    let mut image = BitMap::new(100, 50);
    for y in 0..50u32 {
        for x in 0..100u32 {
            image.set_pixel(x, y, Rgba::rgb(1, 2, 3)).unwrap();
        }
    }
    let mut frame = Frame::new();
    clear(&mut frame);
    draw_image(&mut frame, &image);
    assert_eq!(pixel(&frame, 0, 0), (1, 2, 3, 255));
    assert_eq!(pixel(&frame, 99, 49), (1, 2, 3, 255));
    assert_eq!(pixel(&frame, 100, 49), (175, 175, 175, 255));
    assert_eq!(pixel(&frame, 99, 50), (175, 175, 175, 255));
    assert_eq!(pixel(&frame, 239, 159), (175, 175, 175, 255));
}

#[test]
fn a_large_image_shows_its_top_left_part() {
    let mut image = BitMap::new(300, 200);
    image.set_pixel(239, 159, Rgba::rgb(5, 6, 7)).unwrap();
    image.set_pixel(240, 159, Rgba::rgb(8, 8, 8)).unwrap();
    let mut frame = Frame::new();
    draw_image(&mut frame, &image);
    assert_eq!(pixel(&frame, 239, 159), (5, 6, 7, 255));
    assert_eq!(pixel(&frame, 0, 0), (255, 255, 255, 255));
}

#[test]
fn images_built_pixel_by_pixel_are_sound() {
    assert!(is_sound(&BitMap::new(0, 0)));
    assert!(is_sound(&BitMap::new(1, 1)));
    assert!(is_sound(&BitMap::new(0, 7)));
    assert!(is_sound(&BitMap::new(300, 10)));
    assert!(is_sound(&numbered_tile()));
    assert!(is_sound(&numbered_tile().crop(2, 0, 7, 5).unwrap()));
}

#[test]
fn a_sound_tile_is_drawn_when_tried() {
    let tile = numbered_tile();
    let mut tried = Frame::new();
    let mut drawn = Frame::new();
    assert!(try_draw_tile(&mut tried, &tile, (20, 30)));
    draw_tile(&mut drawn, &tile, (20, 30));
    assert_eq!(tried.as_bytes(), drawn.as_bytes());
    assert_eq!(pixel(&tried, 20, 30), (0, 90, 7, 255));
}

#[test]
fn a_sound_image_is_drawn_when_tried() {
    let mut image = BitMap::new(3, 2);
    image.set_pixel(2, 1, Rgba::rgb(9, 8, 7)).unwrap();
    let mut frame = Frame::new();
    assert!(try_draw_image(&mut frame, &image));
    assert_eq!(pixel(&frame, 2, 1), (9, 8, 7, 255));
    assert_eq!(pixel(&frame, 0, 0), (255, 255, 255, 255));
    assert_eq!(pixel(&frame, 3, 1), (0, 0, 0, 0));
}
