use endless_runner::frame::{clear, Frame};
use endless_runner::player::PlayerBody;
use endless_runner::render::{
    draw_plan, draw_score_lives, draw_sprite, draw_tiles, plan_score_lives, plan_tiles,
    tile_sprite, Placement, Sprite, SpriteSheet,
};
use endless_runner::tile::TileClass;
use endless_runner::timer::ArmedWindow;
use endless_runner::world::{TilePage, TileWorld};
use rustbitmap::{BitMap, Rgba};

fn shade(x: u32, y: u32) -> (u8, u8, u8) {
    ((x % 251) as u8, (10 * y + 1) as u8, (x / 10) as u8)
}

fn atlas(width: u32, height: u32) -> BitMap {
    let mut img = BitMap::new(width, height);
    for y in 0..height {
        for x in 0..width {
            let (r, g, b) = shade(x, y);
            img.set_pixel(x, y, Rgba::rgb(r, g, b)).unwrap();
        }
    }
    img
}

fn sheet() -> SpriteSheet {
    SpriteSheet::load(&atlas(300, 10)).unwrap()
}

fn pixel(frame: &Frame, x: usize, y: usize) -> (u8, u8, u8, u8) {
    let b = frame.as_bytes();
    let i = 4 * (y * 240 + x);
    (b[i], b[i + 1], b[i + 2], b[i + 3])
}

fn expect_cell(frame: &Frame, left: usize, top: usize, column: u32) {
    for r in 0..10usize {
        for c in 0..10usize {
            let (red, green, blue) = shade(column + c as u32, r as u32);
            assert_eq!(pixel(frame, left + c, top + r), (red, green, blue, 255));
        }
    }
}

fn place(sprite: Sprite, x: i32, y: i32) -> Placement {
    Placement { sprite, x, y }
}

#[test]
fn the_sheet_needs_the_whole_atlas() {
    assert!(SpriteSheet::load(&atlas(300, 10)).is_some());
    assert!(SpriteSheet::load(&atlas(400, 20)).is_some());
    assert!(SpriteSheet::load(&atlas(299, 10)).is_none());
    assert!(SpriteSheet::load(&atlas(300, 9)).is_none());
    assert!(SpriteSheet::load(&atlas(50, 10)).is_none());
    assert!(SpriteSheet::load(&atlas(200, 10)).is_none());
}

#[test]
fn every_sprite_comes_upright_from_its_cell() {
    let sheet = sheet();
    let mut cases = vec![
        (Sprite::Ground, 0),
        (Sprite::Spike, 10),
        (Sprite::Boost, 20),
        (Sprite::Player, 30),
        (Sprite::Heart, 40),
    ];
    for d in 0..10u8 {
        cases.push((Sprite::ScoreDigit(d), 100 + 10 * d as u32));
        cases.push((Sprite::HighscoreDigit(d), 200 + 10 * d as u32));
    }
    for (sprite, column) in cases {
        let mut frame = Frame::new();
        draw_sprite(&mut frame, &sheet, place(sprite, 17, 23));
        expect_cell(&frame, 17, 23, column);
        assert_eq!(pixel(&frame, 16, 23), (0, 0, 0, 0));
        assert_eq!(pixel(&frame, 27, 23), (0, 0, 0, 0));
        assert_eq!(pixel(&frame, 17, 22), (0, 0, 0, 0));
        assert_eq!(pixel(&frame, 17, 33), (0, 0, 0, 0));
    }
}

#[test]
fn a_digit_sprite_beyond_nine_draws_nothing() {
    let sheet = sheet();
    let mut frame = Frame::new();
    draw_sprite(&mut frame, &sheet, place(Sprite::ScoreDigit(10), 0, 0));
    draw_sprite(&mut frame, &sheet, place(Sprite::HighscoreDigit(255), 0, 0));
    assert!(frame.as_bytes().iter().all(|b| *b == 0));
}

#[test]
fn sprites_are_drawn_in_the_order_of_the_plan() {
    let sheet = sheet();
    let mut frame = Frame::new();
    let plan = vec![place(Sprite::Ground, 0, 0), place(Sprite::Heart, 5, 0)];
    draw_plan(&mut frame, &sheet, &plan);
    expect_cell(&frame, 5, 0, 40);
    let (r, g, b) = shade(4, 3);
    assert_eq!(pixel(&frame, 4, 3), (r, g, b, 255));
    draw_plan(&mut frame, &sheet, &Vec::new());
    expect_cell(&frame, 5, 0, 40);
}

#[test]
fn tiles_have_their_sprites() {
    assert_eq!(tile_sprite(TileClass::Solid), Some(Sprite::Ground));
    assert_eq!(tile_sprite(TileClass::Hazard), Some(Sprite::Spike));
    assert_eq!(tile_sprite(TileClass::Boost), Some(Sprite::Boost));
    assert_eq!(tile_sprite(TileClass::Empty), None);
}

fn marked_world() -> TileWorld {
    let mut first = TilePage::empty();
    first.set_tile(0, 0, TileClass::Solid);
    first.set_tile(3, 2, TileClass::Hazard);
    first.set_tile(47, 15, TileClass::Boost);
    let mut second = TilePage::empty();
    second.set_tile(1, 1, TileClass::Boost);
    let mut world = TileWorld::new(vec![first, second]).unwrap();
    world.advance(Some(1));
    world
}

#[test]
fn the_terrain_plan_lists_both_pages_row_by_row() {
    let world = marked_world();
    assert_eq!(
        plan_tiles(&world),
        vec![
            place(Sprite::Ground, 0, 25),
            place(Sprite::Spike, 30, 20),
            place(Sprite::Boost, 470, 150),
            place(Sprite::Boost, 490, 10),
        ]
    );
}

#[test]
fn the_terrain_plan_moves_left_with_the_scroll() {
    let mut world = marked_world();
    world.scroll_forward(None);
    assert_eq!(
        plan_tiles(&world),
        vec![
            place(Sprite::Ground, -2, 27),
            place(Sprite::Spike, 28, 20),
            place(Sprite::Boost, 468, 150),
            place(Sprite::Boost, 488, 10),
        ]
    );
    for _ in 0..3 {
        world.scroll_forward(None);
    }
    assert_eq!(
        plan_tiles(&world),
        vec![
            place(Sprite::Ground, -8, 33),
            place(Sprite::Spike, 22, 23),
            place(Sprite::Boost, 462, 150),
            place(Sprite::Boost, 482, 10),
        ]
    );
}

#[test]
fn the_ramp_sinks_tiles_left_of_column_25() {
    let mut page = TilePage::empty();
    page.set_tile(2, 0, TileClass::Solid);
    page.set_tile(3, 0, TileClass::Solid);
    let mut world = TileWorld::new(vec![page, TilePage::empty()]).unwrap();
    world.advance(Some(1));
    assert_eq!(
        plan_tiles(&world),
        vec![place(Sprite::Ground, 20, 5), place(Sprite::Ground, 30, 0)]
    );
    for _ in 0..3 {
        world.scroll_forward(None);
    }
    assert_eq!(
        plan_tiles(&world),
        vec![place(Sprite::Ground, 14, 11), place(Sprite::Ground, 24, 1)]
    );
}

#[test]
fn an_empty_world_has_an_empty_plan() {
    let world = TileWorld::new(vec![TilePage::empty()]).unwrap();
    assert_eq!(plan_tiles(&world), Vec::new());
}

#[test]
fn the_score_display_for_12345() {
    let mut want = Vec::new();
    for (i, d) in [5u8, 4, 3, 2, 1].iter().enumerate() {
        want.push(place(Sprite::ScoreDigit(*d), 220 - 10 * i as i32, 21));
    }
    for (i, d) in [5u8, 4, 3, 2, 1].iter().enumerate() {
        want.push(place(Sprite::HighscoreDigit(*d), 220 - 10 * i as i32, 10));
    }
    want.push(place(Sprite::Heart, 220, 32));
    want.push(place(Sprite::Heart, 210, 32));
    want.push(place(Sprite::Heart, 200, 32));
    assert_eq!(plan_score_lives(12345, 99, 3), want);
}

#[test]
fn the_high_score_row_shows_the_better_value() {
    assert_eq!(
        plan_score_lives(7, 42, 0),
        vec![
            place(Sprite::ScoreDigit(7), 220, 21),
            place(Sprite::HighscoreDigit(2), 220, 10),
            place(Sprite::HighscoreDigit(4), 210, 10),
        ]
    );
    assert_eq!(
        plan_score_lives(0, 0, 1),
        vec![
            place(Sprite::ScoreDigit(0), 220, 21),
            place(Sprite::HighscoreDigit(0), 220, 10),
            place(Sprite::Heart, 220, 32),
        ]
    );
}

#[test]
fn the_score_display_of_the_largest_values() {
    let plan = plan_score_lives(u64::MAX, u64::MAX, 255);
    assert_eq!(plan.len(), 20 + 20 + 255);
    assert_eq!(plan[19], place(Sprite::ScoreDigit(1), 30, 21));
    assert_eq!(plan[39], place(Sprite::HighscoreDigit(1), 30, 10));
    assert_eq!(plan[40 + 254], place(Sprite::Heart, 220 - 2540, 32));
}

#[test]
fn the_score_display_is_drawn_from_the_digit_cells() {
    let sheet = sheet();
    let mut frame = Frame::new();
    clear(&mut frame);
    draw_score_lives(12345, 0, 2, &sheet, &mut frame);
    expect_cell(&frame, 220, 32, 40);
    expect_cell(&frame, 210, 32, 40);
    expect_cell(&frame, 180, 10, 200 + 10);
    expect_cell(&frame, 190, 10, 200 + 20);
    for r in 0..1usize {
        for c in 0..10usize {
            let (red, green, blue) = shade(200 + 50 + c as u32, r as u32);
            assert_eq!(pixel(&frame, 220 + c, 10 + r), (red, green, blue, 255));
        }
    }
    let (red, green, blue) = shade(100 + 50 + 3, 9);
    assert_eq!(pixel(&frame, 223, 30), (red, green, blue, 255));
    assert_eq!(pixel(&frame, 170, 25), (175, 175, 175, 255));
}

#[test]
fn the_terrain_is_drawn_from_the_tile_cells() {
    let sheet = sheet();
    let mut page = TilePage::empty();
    page.set_tile(5, 3, TileClass::Solid);
    page.set_tile(6, 3, TileClass::Hazard);
    page.set_tile(7, 3, TileClass::Boost);
    let world = TileWorld::new(vec![page]).unwrap();
    let mut frame = Frame::new();
    draw_tiles(&mut frame, &world, &sheet);
    expect_cell(&frame, 50, 30, 0);
    expect_cell(&frame, 60, 30, 10);
    expect_cell(&frame, 70, 30, 20);
    assert_eq!(pixel(&frame, 80, 30), (0, 0, 0, 0));
    assert_eq!(pixel(&frame, 49, 30), (0, 0, 0, 0));
}

#[test]
fn the_player_is_drawn_at_its_pixel() {
    let sheet = sheet();
    let p = PlayerBody {
        x: 49_990,
        y: 80_450,
        velocity: 0,
        on_ground: false,
        jump: ArmedWindow { armed: false, since: 0 },
    };
    assert_eq!(p.placement(), place(Sprite::Player, 49, 80));
    let mut frame = Frame::new();
    p.draw(&mut frame, &sheet);
    expect_cell(&frame, 49, 80, 30);
}

#[test]
fn a_player_above_the_frame_is_placed_above_it() {
    let p = PlayerBody {
        x: 500,
        y: -3500,
        velocity: 0,
        on_ground: false,
        jump: ArmedWindow { armed: false, since: 0 },
    };
    assert_eq!(p.placement(), place(Sprite::Player, 0, -3));
    let q = PlayerBody { x: -999, y: -999, ..p };
    assert_eq!(q.placement(), place(Sprite::Player, 0, 0));
    let r = PlayerBody { x: -1000, y: -1001, ..p };
    assert_eq!(r.placement(), place(Sprite::Player, -1, -1));
}
