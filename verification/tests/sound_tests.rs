use endless_runner::bitmap::is_sound;
use endless_runner::frame::{clear, try_draw_image, try_draw_tile, Frame};
use endless_runner::render::SpriteSheet;
use endless_runner::scene::Assets;
use endless_runner::world::{load_blocks, TilePage};
use rustbitmap::{BitMap, Rgba};

/// An image that stores another number of pixels than its size announces:
/// what comes back when a two-colour image of an awkward width is saved at
/// its smallest bit depth and read again.
fn misread(width: u32, height: u32, name: &str) -> BitMap {
    let mut image = BitMap::new(width, height);
    image.set_pixel(0, 0, Rgba::rgb(0, 0, 0)).unwrap();
    let path = format!("/tmp/endless_runner_{}.bmp", name);
    image.simplify_and_save_as(&path).unwrap();
    let back = BitMap::read(&path).unwrap();
    assert_eq!(back.get_width(), width);
    assert_eq!(back.get_height(), height);
    assert_ne!(back.get_pixels().len(), (width * height) as usize);
    back
}

#[test]
fn a_misread_image_is_not_sound() {
    assert!(!is_sound(&misread(3, 1, "three_by_one")));
    assert!(!is_sound(&misread(10, 10, "ten_by_ten")));
}

#[test]
fn a_page_is_not_decoded_from_an_unsound_atlas() {
    let atlas = misread(49, 16, "page_atlas");
    assert!(TilePage::decode(&atlas, 0).is_none());
    assert!(load_blocks(&atlas, 1).is_none());
    assert_eq!(load_blocks(&atlas, 0).unwrap().len(), 0);
    assert!(TilePage::decode(&BitMap::new(49, 16), 0).is_some());
}

#[test]
fn sprites_are_not_cut_from_an_unsound_atlas() {
    let atlas = misread(300, 10, "sprite_atlas");
    assert!(SpriteSheet::load(&atlas).is_none());
    assert!(SpriteSheet::load(&BitMap::new(300, 10)).is_some());
}

#[test]
fn assets_need_three_sound_images() {
    let good = BitMap::new(300, 10);
    assert!(Assets::load(&good, BitMap::new(240, 160), BitMap::new(240, 160)).is_some());
    assert!(Assets::load(&good, misread(241, 160, "splash"), BitMap::new(240, 160)).is_none());
    assert!(Assets::load(&good, BitMap::new(240, 160), misread(241, 160, "gameover")).is_none());
    let bad = misread(300, 10, "assets_atlas");
    assert!(Assets::load(&bad, BitMap::new(240, 160), BitMap::new(240, 160)).is_none());
}

#[test]
fn an_unsound_tile_leaves_the_frame_alone() {
    let tile = misread(10, 10, "tile");
    let mut frame = Frame::new();
    clear(&mut frame);
    let before = frame.as_bytes().clone();
    assert!(!try_draw_tile(&mut frame, &tile, (20, 30)));
    assert_eq!(frame.as_bytes(), &before);
}

#[test]
fn an_unsound_image_leaves_the_frame_alone() {
    let image = misread(241, 160, "image");
    let mut frame = Frame::new();
    clear(&mut frame);
    let before = frame.as_bytes().clone();
    assert!(!try_draw_image(&mut frame, &image));
    assert_eq!(frame.as_bytes(), &before);
}
