//! The picture of a game: what to draw for each state, as a plan, and the
//! drawing of that plan onto a frame.

use crate::bitmap::{bitmap_pixels, is_sound, sound};
use crate::frame::{clear, cleared, draw_image, with_image, Frame};
use crate::game::{Game, GameView, State};
use crate::player::{spec_lives, spec_pixel};
use crate::render::{
    draw_plan, holds_all_sprites, painted, plan_score_lives, plan_tiles, spec_plan_score_lives,
    spec_plan_tiles, spec_player_placement, sprite_cut, Placement, Sprite, SpriteSheet,
};
use rustbitmap::BitMap;
use vstd::prelude::*;

verus! {

/// What lies behind the sprites of a picture.
#[derive(Clone, Copy, Debug, PartialEq, Eq, Structural)]
pub enum Background {
    /// The plain backdrop colour.
    Backdrop,
    /// The title image.
    Splash,
    /// The image that ends a run.
    GameOver,
}

/// The draw commands for one picture: a background, then sprites in the
/// order in which they are drawn.
pub struct RenderPlan {
    pub background: Background,
    pub sprites: Vec<Placement>,
}

/// The images that the engine draws from.
pub struct Assets {
    pub sheet: SpriteSheet,
    pub splash: BitMap,
    pub gameover: BitMap,
}

/// The background of the picture of a game: the title image on the title
/// screen, the backdrop during a run, the closing image after it.
pub open spec fn spec_background(game: GameView) -> Background {
    match game.state {
        State::Splash => Background::Splash,
        State::Running => Background::Backdrop,
        State::GameOver => Background::GameOver,
    }
}

/// The sprites of the picture of a game, in drawing order. A run shows the
/// terrain, then the player, then the score display with the player's
/// lives. After a run the score display stays, without lives. The title
/// screen has no sprites.
pub open spec fn spec_sprites(game: GameView) -> Seq<Placement> {
    match game.state {
        State::Splash => Seq::empty(),
        State::Running => spec_plan_tiles(game.world).push(spec_player_placement(game.player))
            + spec_plan_score_lives(
            game.tracker.score,
            game.tracker.highscore,
            spec_lives(spec_pixel(game.player.x as int)) as u8,
        ),
        State::GameOver => spec_plan_score_lives(game.tracker.score, game.tracker.highscore, 0),
    }
}

/// A frame with a background laid over it.
pub open spec fn with_background(frame: Seq<u8>, assets: Assets, background: Background) -> Seq<
    u8,
> {
    match background {
        Background::Backdrop => cleared(frame),
        Background::Splash => with_image(frame, bitmap_pixels(assets.splash)),
        Background::GameOver => with_image(frame, bitmap_pixels(assets.gameover)),
    }
}

impl Assets {
    /// The sprite sheet is complete and the two full-screen images are
    /// sound.
    pub open spec fn wf(&self) -> bool {
        self.sheet.wf() && sound(self.splash) && sound(self.gameover)
    }

    /// Takes the three images of the game: cuts the sprites out of the
    /// atlas and keeps the two full-screen images. Succeeds exactly when
    /// all three images are sound and the atlas holds every sprite.
    pub fn load(img: &BitMap, splash: BitMap, gameover: BitMap) -> (assets: Option<Assets>)
        ensures
            assets.is_some() == (sound(*img) && holds_all_sprites(bitmap_pixels(*img)) && sound(
                splash,
            ) && sound(gameover)),
            assets matches Some(a) ==> {
                &&& a.wf()
                &&& a.splash == splash
                &&& a.gameover == gameover
                &&& forall|sprite: Sprite| #[trigger]
                    a.sheet.pixels(sprite) == sprite_cut(
                        bitmap_pixels(*img),
                        sprite,
                    )
            },
    {
        if !is_sound(&splash) || !is_sound(&gameover) {
            return None;
        }
        match SpriteSheet::load(img) {
            Some(sheet) => Some(Assets { sheet, splash, gameover }),
            None => None,
        }
    }
}

impl Game {
    /// Plans the picture of the game as it stands.
    pub fn render_plan(&self) -> (plan: RenderPlan)
        requires
            self.wf(),
        ensures
            plan.background == spec_background(self@),
            plan.sprites@ == spec_sprites(self@),
    {
        match self.state() {
            State::Splash => RenderPlan { background: Background::Splash, sprites: Vec::new() },
            State::Running => {
                let player = self.player();
                let mut sprites = plan_tiles(self.world());
                sprites.push(player.placement());
                let hud = plan_score_lives(self.score(), self.highscore(), player.get_lives());
                let ghost head = sprites@;
                let mut i: usize = 0;
                while i < hud.len()
                    invariant
                        i <= hud.len(),
                        sprites@ == head + hud@.take(i as int),
                    decreases hud.len() - i,
                {
                    sprites.push(hud[i]);
                    i += 1;
                    assert(sprites@ =~= head + hud@.take(i as int));
                }
                assert(hud@.take(hud.len() as int) =~= hud@);
                RenderPlan { background: Background::Backdrop, sprites }
            },
            State::GameOver => RenderPlan {
                background: Background::GameOver,
                sprites: plan_score_lives(self.score(), self.highscore(), 0),
            },
        }
    }
}

/// Draws a plan onto the frame: its background first, then its sprites in
/// order.
pub fn draw(frame: &mut Frame, assets: &Assets, plan: &RenderPlan)
    requires
        old(frame).wf(),
        assets.wf(),
    ensures
        final(frame).wf(),
        final(frame)@ == painted(
            with_background(old(frame)@, *assets, plan.background),
            assets.sheet,
            plan.sprites@,
        ),
{
    match plan.background {
        Background::Backdrop => clear(frame),
        Background::Splash => draw_image(frame, &assets.splash),
        Background::GameOver => draw_image(frame, &assets.gameover),
    }
    draw_plan(frame, &assets.sheet, &plan.sprites);
}

/// Draws the picture of the game as it stands onto the frame.
pub fn render(game: &Game, assets: &Assets, frame: &mut Frame)
    requires
        game.wf(),
        assets.wf(),
        old(frame).wf(),
    ensures
        final(frame).wf(),
        final(frame)@ == painted(
            with_background(old(frame)@, *assets, spec_background(game@)),
            assets.sheet,
            spec_sprites(game@),
        ),
{
    let plan = game.render_plan();
    draw(frame, assets, &plan);
}

} // verus!
