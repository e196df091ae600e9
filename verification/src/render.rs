//! The render plan: which sprite goes where for the terrain, the player and
//! the score display, and the painting of such a plan onto a frame.

use crate::bitmap::{bitmap_pixels, crop, cropped, is_sound, sound};
use crate::frame::{draw_tile, tile_byte, with_tile, Frame, byte_column, byte_row, channel, is_key};
use crate::player::{toward_zero, PlayerBody};
use crate::score::{best, digit, digit_count, spec_best, spec_digit, spec_digit_count};
use crate::tile::TileClass;
use crate::tuning::{HORIZONTAL_TILES, PAGE_WIDTH_PX, SUBPIXELS, TILE_SCALE};
use crate::world::{tile_of, TileWorld, WorldView, PAGE_TILES};
use rustbitmap::BitMap;
use vstd::prelude::*;

verus! {

/// Right edge of the score display: the column of its last digit.
pub const HUD_RIGHT: i32 = 220;

/// Row of the score.
pub const SCORE_ROW: i32 = 21;

/// Row of the high score.
pub const HIGHSCORE_ROW: i32 = 10;

/// Row of the hearts.
pub const LIVES_ROW: i32 = 32;

/// Width of the ramp at the left edge, down which the terrain sinks.
pub const RAMP_WIDTH: i32 = 25;

/// The pictures that the engine draws from its sprite atlas.
#[derive(Clone, Copy, Debug, PartialEq, Eq, Structural)]
pub enum Sprite {
    Ground,
    Spike,
    Boost,
    Player,
    Heart,
    ScoreDigit(u8),
    HighscoreDigit(u8),
}

/// One draw command: a sprite and the frame pixel of its top left corner.
#[derive(Clone, Copy, Debug, PartialEq, Eq, Structural)]
pub struct Placement {
    pub sprite: Sprite,
    pub x: i32,
    pub y: i32,
}

impl Sprite {
    /// Whether the atlas has a picture for the sprite: a digit sprite must
    /// hold a decimal digit.
    pub open spec fn valid(self) -> bool {
        match self {
            Sprite::ScoreDigit(d) => d < 10,
            Sprite::HighscoreDigit(d) => d < 10,
            _ => true,
        }
    }

    /// The atlas column at which the sprite's picture begins.
    pub open spec fn atlas_column(self) -> int {
        match self {
            Sprite::Ground => 0,
            Sprite::Spike => 10,
            Sprite::Boost => 20,
            Sprite::Player => 30,
            Sprite::Heart => 40,
            Sprite::ScoreDigit(d) => 100 + 10 * d,
            Sprite::HighscoreDigit(d) => 200 + 10 * d,
        }
    }
}

/// Whether an atlas holds the picture of a sprite: it covers the far
/// corner of the sprite's cell.
pub open spec fn holds_sprite(atlas: Map<(int, int), (u8, u8, u8)>, sprite: Sprite) -> bool {
    atlas.dom().contains((sprite.atlas_column() + TILE_SCALE - 1, TILE_SCALE - 1))
}

/// Whether an atlas holds the picture of every sprite.
pub open spec fn holds_all_sprites(atlas: Map<(int, int), (u8, u8, u8)>) -> bool {
    forall|sprite: Sprite| sprite.valid() ==> #[trigger] holds_sprite(atlas, sprite)
}

/// The picture of a sprite as `crop` cuts it out of an atlas: the cell of
/// `TILE_SCALE` by `TILE_SCALE` pixels at the sprite's column, rows
/// bottom-up. A sprite that is not valid has an empty picture.
pub open spec fn sprite_cut(atlas: Map<(int, int), (u8, u8, u8)>, sprite: Sprite) -> Map<
    (int, int),
    (u8, u8, u8),
> {
    if sprite.valid() {
        cropped(
            atlas,
            sprite.atlas_column(),
            sprite.atlas_column() + TILE_SCALE,
            TILE_SCALE as int,
        )
    } else {
        Map::empty()
    }
}

/// The sprites of the game, each cut out of the atlas once.
pub struct SpriteSheet {
    ground: BitMap,
    spike: BitMap,
    boost: BitMap,
    player: BitMap,
    heart: BitMap,
    score_digits: Vec<BitMap>,
    highscore_digits: Vec<BitMap>,
}

/// The sprite of a digit of the score, or of the high score.
pub open spec fn digit_sprite(high: bool, d: u8) -> Sprite {
    if high {
        Sprite::HighscoreDigit(d)
    } else {
        Sprite::ScoreDigit(d)
    }
}

/// Cuts the picture of a sprite out of an atlas.
fn cut_sprite(atlas: &BitMap, sprite: Sprite) -> (cell: Option<BitMap>)
    requires
        sprite.valid(),
        sound(*atlas),
    ensures
        cell.is_some() == holds_sprite(bitmap_pixels(*atlas), sprite),
        cell matches Some(c) ==> sound(c) && bitmap_pixels(c) == sprite_cut(
            bitmap_pixels(*atlas),
            sprite,
        ),
{
    let column: u32 = match sprite {
        Sprite::Ground => 0,
        Sprite::Spike => 10,
        Sprite::Boost => 20,
        Sprite::Player => 30,
        Sprite::Heart => 40,
        Sprite::ScoreDigit(d) => 100 + 10 * d as u32,
        Sprite::HighscoreDigit(d) => 200 + 10 * d as u32,
    };
    match crop(atlas, column, 0, column + TILE_SCALE, TILE_SCALE) {
        Ok(cell) => Some(cell),
        Err(_) => None,
    }
}

/// Cuts the pictures of the ten digits of one kind out of an atlas.
fn cut_digits(atlas: &BitMap, high: bool) -> (cells: Option<Vec<BitMap>>)
    requires
        sound(*atlas),
    ensures
        cells.is_some() == (forall|d: u8|
            d < 10 ==> holds_sprite(bitmap_pixels(*atlas), #[trigger] digit_sprite(high, d))),
        cells matches Some(v) ==> {
            &&& v.len() == 10
            &&& forall|d: int| 0 <= d < 10 ==> sound(#[trigger] v[d])
            &&& forall|d: u8|
                d < 10 ==> bitmap_pixels(v[d as int]) == sprite_cut(
                    bitmap_pixels(*atlas),
                    #[trigger] digit_sprite(high, d),
                )
        },
{
    let mut cells: Vec<BitMap> = Vec::new();
    let mut d: u8 = 0;
    while d < 10
        invariant
            d <= 10,
            sound(*atlas),
            cells.len() == d,
            forall|e: int| 0 <= e < d ==> sound(#[trigger] cells[e]),
            forall|e: u8|
                e < d ==> holds_sprite(bitmap_pixels(*atlas), #[trigger] digit_sprite(high, e)),
            forall|e: u8|
                e < d ==> bitmap_pixels(cells[e as int]) == sprite_cut(
                    bitmap_pixels(*atlas),
                    #[trigger] digit_sprite(high, e),
                ),
        decreases 10 - d,
    {
        let sprite = if high {
            Sprite::HighscoreDigit(d)
        } else {
            Sprite::ScoreDigit(d)
        };
        match cut_sprite(atlas, sprite) {
            Some(cell) => {
                cells.push(cell);
            },
            None => {
                assert(!holds_sprite(bitmap_pixels(*atlas), digit_sprite(high, d)));
                return None;
            },
        }
        d += 1;
    }
    Some(cells)
}

impl SpriteSheet {
    /// The sheet holds ten digits of each kind, and every picture in it is
    /// a sound image.
    pub closed spec fn wf(&self) -> bool {
        &&& self.score_digits.len() == 10
        &&& self.highscore_digits.len() == 10
        &&& sound(self.ground)
        &&& sound(self.spike)
        &&& sound(self.boost)
        &&& sound(self.player)
        &&& sound(self.heart)
        &&& forall|d: int| 0 <= d < 10 ==> sound(#[trigger] self.score_digits[d])
        &&& forall|d: int| 0 <= d < 10 ==> sound(#[trigger] self.highscore_digits[d])
    }

    /// The picture that the sheet holds for a sprite; empty for a sprite
    /// that is not valid.
    pub closed spec fn pixels(&self, sprite: Sprite) -> Map<(int, int), (u8, u8, u8)> {
        match sprite {
            Sprite::Ground => bitmap_pixels(self.ground),
            Sprite::Spike => bitmap_pixels(self.spike),
            Sprite::Boost => bitmap_pixels(self.boost),
            Sprite::Player => bitmap_pixels(self.player),
            Sprite::Heart => bitmap_pixels(self.heart),
            Sprite::ScoreDigit(d) => if d < 10 {
                bitmap_pixels(self.score_digits[d as int])
            } else {
                Map::empty()
            },
            Sprite::HighscoreDigit(d) => if d < 10 {
                bitmap_pixels(self.highscore_digits[d as int])
            } else {
                Map::empty()
            },
        }
    }

    /// Cuts every sprite out of the atlas. Succeeds exactly when the atlas
    /// is sound and holds them all.
    pub fn load(img: &BitMap) -> (sheet: Option<SpriteSheet>)
        ensures
            sheet.is_some() == (sound(*img) && holds_all_sprites(bitmap_pixels(*img))),
            sheet matches Some(s) ==> s.wf() && forall|sprite: Sprite|
                #[trigger] s.pixels(sprite) == sprite_cut(bitmap_pixels(*img), sprite),
    {
        if !is_sound(img) {
            return None;
        }
        let ghost atlas = bitmap_pixels(*img);
        let ground = match cut_sprite(img, Sprite::Ground) {
            Some(cell) => cell,
            None => {
                return None;
            },
        };
        let spike = match cut_sprite(img, Sprite::Spike) {
            Some(cell) => cell,
            None => {
                return None;
            },
        };
        let boost = match cut_sprite(img, Sprite::Boost) {
            Some(cell) => cell,
            None => {
                return None;
            },
        };
        let player = match cut_sprite(img, Sprite::Player) {
            Some(cell) => cell,
            None => {
                return None;
            },
        };
        let heart = match cut_sprite(img, Sprite::Heart) {
            Some(cell) => cell,
            None => {
                return None;
            },
        };
        let score_digits = match cut_digits(img, false) {
            Some(cells) => cells,
            None => {
                let ghost d = choose|d: u8|
                    d < 10 && !holds_sprite(atlas, #[trigger] digit_sprite(false, d));
                assert(!holds_sprite(atlas, Sprite::ScoreDigit(d)));
                return None;
            },
        };
        let highscore_digits = match cut_digits(img, true) {
            Some(cells) => cells,
            None => {
                let ghost d = choose|d: u8|
                    d < 10 && !holds_sprite(atlas, #[trigger] digit_sprite(true, d));
                assert(!holds_sprite(atlas, Sprite::HighscoreDigit(d)));
                return None;
            },
        };
        let sheet = SpriteSheet {
            ground,
            spike,
            boost,
            player,
            heart,
            score_digits,
            highscore_digits,
        };
        proof {
            assert forall|sprite: Sprite| sprite.valid() implies #[trigger] holds_sprite(
                atlas,
                sprite,
            ) by {
                match sprite {
                    Sprite::ScoreDigit(d) => {
                        assert(holds_sprite(atlas, digit_sprite(false, d)));
                    },
                    Sprite::HighscoreDigit(d) => {
                        assert(holds_sprite(atlas, digit_sprite(true, d)));
                    },
                    _ => {},
                }
            }
            assert forall|sprite: Sprite| #[trigger]
                sheet.pixels(sprite) == sprite_cut(atlas, sprite) by {
                match sprite {
                    Sprite::ScoreDigit(d) => {
                        if d < 10 {
                            assert(sprite == digit_sprite(false, d));
                        }
                    },
                    Sprite::HighscoreDigit(d) => {
                        if d < 10 {
                            assert(sprite == digit_sprite(true, d));
                        }
                    },
                    _ => {},
                }
            }
        }
        Some(sheet)
    }

    /// The tile that holds a sprite's picture; none for a sprite that is
    /// not valid.
    fn tile(&self, sprite: Sprite) -> (tile: Option<&BitMap>)
        requires
            self.wf(),
        ensures
            tile.is_some() == sprite.valid(),
            tile matches Some(t) ==> sound(*t) && bitmap_pixels(*t) == self.pixels(sprite),
    {
        match sprite {
            Sprite::Ground => Some(&self.ground),
            Sprite::Spike => Some(&self.spike),
            Sprite::Boost => Some(&self.boost),
            Sprite::Player => Some(&self.player),
            Sprite::Heart => Some(&self.heart),
            Sprite::ScoreDigit(d) => if d < 10 {
                Some(&self.score_digits[d as usize])
            } else {
                None
            },
            Sprite::HighscoreDigit(d) => if d < 10 {
                Some(&self.highscore_digits[d as usize])
            } else {
                None
            },
        }
    }
}

/// A frame after the sprites of a plan have been blitted onto it one after
/// another.
pub open spec fn painted(frame: Seq<u8>, sheet: SpriteSheet, plan: Seq<Placement>) -> Seq<u8>
    decreases plan.len(),
{
    if plan.len() == 0 {
        frame
    } else {
        let last = plan.last();
        with_tile(
            painted(frame, sheet, plan.drop_last()),
            sheet.pixels(last.sprite),
            last.x as int,
            last.y as int,
        )
    }
}

/// Blits one sprite onto the frame.
pub fn draw_sprite(frame: &mut Frame, sheet: &SpriteSheet, placement: Placement)
    requires
        old(frame).wf(),
        sheet.wf(),
    ensures
        final(frame).wf(),
        final(frame)@ == with_tile(
            old(frame)@,
            sheet.pixels(placement.sprite),
            placement.x as int,
            placement.y as int,
        ),
{
    match sheet.tile(placement.sprite) {
        Some(tile) => {
            draw_tile(frame, tile, (placement.x, placement.y));
        },
        None => {
            assert(frame@ =~= with_tile(
                frame@,
                Map::empty(),
                placement.x as int,
                placement.y as int,
            ));
        },
    }
}

/// Blits the sprites of a plan onto the frame, in order.
pub fn draw_plan(frame: &mut Frame, sheet: &SpriteSheet, plan: &Vec<Placement>)
    requires
        old(frame).wf(),
        sheet.wf(),
    ensures
        final(frame).wf(),
        final(frame)@ == painted(old(frame)@, *sheet, plan@),
{
    let ghost before = frame@;
    let mut i: usize = 0;
    while i < plan.len()
        invariant
            frame.wf(),
            sheet.wf(),
            i <= plan.len(),
            frame@ == painted(before, *sheet, plan@.take(i as int)),
        decreases plan.len() - i,
    {
        assert(plan@.take(i + 1).drop_last() =~= plan@.take(i as int));
        draw_sprite(frame, sheet, plan[i]);
        i += 1;
    }
    assert(plan@.take(plan.len() as int) =~= plan@);
}

/// The sprite that shows a tile of a class; none for empty space.
pub open spec fn sprite_of(class: TileClass) -> Option<Sprite> {
    match class {
        TileClass::Solid => Some(Sprite::Ground),
        TileClass::Hazard => Some(Sprite::Spike),
        TileClass::Boost => Some(Sprite::Boost),
        TileClass::Empty => None,
    }
}

/// The draw command for cell `n` of the two pages in view, if the cell is
/// not empty. The cells of the current page count first, row by row, then
/// those of the next page.
///
/// A tile stands at its column in the strip less the scroll offset. Inside
/// the ramp at the left edge it sinks by one pixel for every pixel that it
/// is short of the ramp's width.
pub open spec fn tile_placement(world: WorldView, n: int) -> Option<Placement> {
    let second = n >= PAGE_TILES;
    let k = n % (PAGE_TILES as int);
    let col = k % (HORIZONTAL_TILES as int);
    let row = k / (HORIZONTAL_TILES as int);
    let page = if second {
        world.next_page()
    } else {
        world.current_page()
    };
    let x = col * TILE_SCALE - world.scroll + (if second {
        PAGE_WIDTH_PX as int
    } else {
        0
    });
    let y = row * TILE_SCALE + (if x < RAMP_WIDTH {
        RAMP_WIDTH - x
    } else {
        0
    });
    match sprite_of(tile_of(page, col, row)) {
        Some(sprite) => Some(Placement { sprite, x: x as i32, y: y as i32 }),
        None => None,
    }
}

/// The draw commands for the first `n` cells of the two pages in view.
pub open spec fn tile_placements(world: WorldView, n: nat) -> Seq<Placement>
    decreases n,
{
    if n == 0 {
        Seq::empty()
    } else {
        let before = tile_placements(world, (n - 1) as nat);
        match tile_placement(world, n - 1) {
            Some(p) => before.push(p),
            None => before,
        }
    }
}

/// The draw commands for the terrain in view.
pub open spec fn spec_plan_tiles(world: WorldView) -> Seq<Placement> {
    tile_placements(world, (2 * PAGE_TILES) as nat)
}

/// The draw commands for a number: its decimal digits from the right edge
/// of the display leftwards, least significant first, in row `y`.
pub open spec fn digit_row(value: u64, high: bool, y: i32) -> Seq<Placement> {
    Seq::new(
        spec_digit_count(value as nat),
        |i: int|
            Placement {
                sprite: if high {
                    Sprite::HighscoreDigit(spec_digit(value as nat, i as nat) as u8)
                } else {
                    Sprite::ScoreDigit(spec_digit(value as nat, i as nat) as u8)
                },
                x: (HUD_RIGHT - TILE_SCALE * i) as i32,
                y,
            },
    )
}

/// The draw commands for the hearts: one for each life, from the right
/// edge of the display leftwards.
pub open spec fn heart_row(lives: u8) -> Seq<Placement> {
    Seq::new(
        lives as nat,
        |i: int|
            Placement {
                sprite: Sprite::Heart,
                x: (HUD_RIGHT - TILE_SCALE * i) as i32,
                y: LIVES_ROW,
            },
    )
}

/// The draw commands for the score display: the score, above it the better
/// of the score and the high score, and below it the hearts.
pub open spec fn spec_plan_score_lives(score: u64, orig_highscore: u64, lives: u8) -> Seq<
    Placement,
> {
    digit_row(score, false, SCORE_ROW) + digit_row(
        spec_best(score, orig_highscore),
        true,
        HIGHSCORE_ROW,
    ) + heart_row(lives)
}

/// The draw command for the player: its sprite at the pixel that its
/// position rounds to, towards the origin.
pub open spec fn spec_player_placement(player: PlayerBody) -> Placement {
    Placement {
        sprite: Sprite::Player,
        x: toward_zero(player.x as int, SUBPIXELS as int) as i32,
        y: toward_zero(player.y as int, SUBPIXELS as int) as i32,
    }
}

/// The sprite that shows a tile of a class; none for empty space.
pub fn tile_sprite(class: TileClass) -> (sprite: Option<Sprite>)
    ensures
        sprite == sprite_of(class),
{
    match class {
        TileClass::Solid => Some(Sprite::Ground),
        TileClass::Hazard => Some(Sprite::Spike),
        TileClass::Boost => Some(Sprite::Boost),
        TileClass::Empty => None,
    }
}

/// Plans the terrain in view: one draw command for every tile of the two
/// active pages that is not empty.
pub fn plan_tiles(world: &TileWorld) -> (plan: Vec<Placement>)
    requires
        world.wf(),
    ensures
        plan@ == spec_plan_tiles(world@),
{
    let horizontal_shift: i32 = world.scroll_offset() as i32;
    let current = world.current_block();
    let next = world.next_block();
    let mut plan: Vec<Placement> = Vec::new();
    let mut n: usize = 0;
    while n < 2 * PAGE_TILES
        invariant
            world.wf(),
            n <= 2 * PAGE_TILES,
            horizontal_shift == world@.scroll,
            current == world@.current,
            next == world@.next,
            plan@ == tile_placements(world@, n as nat),
        decreases 2 * PAGE_TILES - n,
    {
        let first_block = n < PAGE_TILES;
        let k: usize = n % PAGE_TILES;
        let col: u32 = (k % 48) as u32;
        let row: u32 = (k / 48) as u32;
        let class = if first_block {
            world.page_tile(current, col, row)
        } else {
            world.page_tile(next, col, row)
        };
        let xx: i32 = if first_block {
            col as i32 * TILE_SCALE as i32 - horizontal_shift
        } else {
            col as i32 * TILE_SCALE as i32 + (PAGE_WIDTH_PX as i32 - horizontal_shift)
        };
        let mut yy: i32 = row as i32 * TILE_SCALE as i32;
        if xx < RAMP_WIDTH {
            yy += RAMP_WIDTH - xx;
        }
        match tile_sprite(class) {
            Some(sprite) => {
                plan.push(Placement { sprite, x: xx, y: yy });
            },
            None => {},
        }
        n += 1;
    }
    plan
}

/// Plans the score display: see `spec_plan_score_lives`.
pub fn plan_score_lives(score: u64, orig_highscore: u64, lives: u8) -> (plan: Vec<Placement>)
    ensures
        plan@ == spec_plan_score_lives(score, orig_highscore, lives),
{
    let mut plan: Vec<Placement> = Vec::new();
    let numericals = digit_count(score);
    let mut i: u32 = 0;
    while i < numericals
        invariant
            i <= numericals,
            numericals == spec_digit_count(score as nat),
            numericals <= 20,
            plan@ == digit_row(score, false, SCORE_ROW).take(i as int),
        decreases numericals - i,
    {
        let remainder = digit(score, i);
        plan.push(
            Placement {
                sprite: Sprite::ScoreDigit(remainder),
                x: HUD_RIGHT - 10 * i as i32,
                y: SCORE_ROW,
            },
        );
        i += 1;
        assert(plan@ =~= digit_row(score, false, SCORE_ROW).take(i as int));
    }
    let highscore = best(score, orig_highscore);
    let numericals = digit_count(highscore);
    let ghost first = digit_row(score, false, SCORE_ROW);
    assert(plan@ =~= first + digit_row(highscore, true, HIGHSCORE_ROW).take(0));
    let mut i: u32 = 0;
    while i < numericals
        invariant
            i <= numericals,
            numericals == spec_digit_count(highscore as nat),
            numericals <= 20,
            plan@ == first + digit_row(highscore, true, HIGHSCORE_ROW).take(i as int),
        decreases numericals - i,
    {
        let remainder = digit(highscore, i);
        plan.push(
            Placement {
                sprite: Sprite::HighscoreDigit(remainder),
                x: HUD_RIGHT - 10 * i as i32,
                y: HIGHSCORE_ROW,
            },
        );
        i += 1;
        assert(plan@ =~= first + digit_row(highscore, true, HIGHSCORE_ROW).take(i as int));
    }
    let ghost second = first + digit_row(highscore, true, HIGHSCORE_ROW);
    assert(plan@ =~= second + heart_row(lives).take(0));
    let mut i: u8 = 0;
    while i < lives
        invariant
            i <= lives,
            plan@ == second + heart_row(lives).take(i as int),
        decreases lives - i,
    {
        plan.push(Placement { sprite: Sprite::Heart, x: HUD_RIGHT - 10 * i as i32, y: LIVES_ROW });
        i += 1;
        assert(plan@ =~= second + heart_row(lives).take(i as int));
    }
    assert(plan@ =~= spec_plan_score_lives(score, orig_highscore, lives));
    plan
}

/// Draws the terrain in view onto the frame.
pub fn draw_tiles(frame: &mut Frame, world: &TileWorld, sheet: &SpriteSheet)
    requires
        old(frame).wf(),
        world.wf(),
        sheet.wf(),
    ensures
        final(frame).wf(),
        final(frame)@ == painted(old(frame)@, *sheet, spec_plan_tiles(world@)),
{
    let plan = plan_tiles(world);
    draw_plan(frame, sheet, &plan);
}

/// Draws the score display onto the frame.
pub fn draw_score_lives(
    score: u64,
    orig_highscore: u64,
    lives: u8,
    sheet: &SpriteSheet,
    frame: &mut Frame,
)
    requires
        old(frame).wf(),
        sheet.wf(),
    ensures
        final(frame).wf(),
        final(frame)@ == painted(
            old(frame)@,
            *sheet,
            spec_plan_score_lives(score, orig_highscore, lives),
        ),
{
    let plan = plan_score_lives(score, orig_highscore, lives);
    draw_plan(frame, sheet, &plan);
}

impl PlayerBody {
    /// The draw command for the player.
    pub fn placement(&self) -> (placement: Placement)
        ensures
            placement == spec_player_placement(*self),
    {
        Placement { sprite: Sprite::Player, x: self.x / SUBPIXELS, y: self.y / SUBPIXELS }
    }

    /// Draws the player onto the frame.
    pub fn draw(&self, frame: &mut Frame, sheet: &SpriteSheet)
        requires
            old(frame).wf(),
            sheet.wf(),
        ensures
            final(frame).wf(),
            final(frame)@ == with_tile(
                old(frame)@,
                sheet.pixels(Sprite::Player),
                spec_player_placement(*self).x as int,
                spec_player_placement(*self).y as int,
            ),
    {
        draw_sprite(frame, sheet, self.placement());
    }
}

/// A sprite comes out upright. The atlas hands a cell over with its rows
/// bottom-up and the blit reads it bottom-up again: the pixel in column `c`
/// and row `r` of the blit has the colour of the atlas `c` columns right of
/// the sprite's column, in row `r`, unless that is the key colour.
pub proof fn lemma_sprite_upright(
    frame: Seq<u8>,
    atlas: Map<(int, int), (u8, u8, u8)>,
    sprite: Sprite,
    left: int,
    top: int,
    k: int,
)
    requires
        sprite.valid(),
    ensures
        ({
            let c = byte_column(k) - left;
            let r = byte_row(k) - top;
            let at = (sprite.atlas_column() + c, r);
            tile_byte(frame, sprite_cut(atlas, sprite), left, top, k) == (if 0 <= c < TILE_SCALE
                && 0 <= r < TILE_SCALE && !is_key(atlas[at]) {
                channel(atlas[at], k)
            } else {
                frame[k]
            })
        }),
{
}

} // verus!
