//! The fixed numbers of the simulation.
//!
//! Lengths are in world pixels unless a name says otherwise. Positions and
//! velocities of the player are kept in sub-pixel units: `SUBPIXELS` of them
//! make one world pixel.

use vstd::prelude::*;

verus! {

/// Width of the viewport and of the frame buffer, in pixels.
pub const WIDTH: u32 = 240;

/// Height of the viewport and of the frame buffer, in pixels.
pub const HEIGHT: u32 = 160;

/// Edge length of one square tile, in pixels.
pub const TILE_SCALE: u32 = 10;

/// Number of tile columns in one page.
pub const HORIZONTAL_TILES: u32 = 48;

/// Number of tile rows in one page.
pub const VERTICAL_TILES: u32 = 16;

/// Width of one page in pixels: `HORIZONTAL_TILES * TILE_SCALE`.
pub const PAGE_WIDTH_PX: u32 = 480;

/// Pixels by which the world scrolls on each quiet tick.
pub const SCROLL_STEP: u32 = 2;

/// Largest pixel column the player may be pushed to.
pub const MAX_PLAYER_X: u32 = 59;

/// Pixel column at which the lives ramp starts.
pub const MIN_PLAYER_X: u32 = 30;

/// Pixel columns of progress that earn one more life.
pub const LIFE_STEP: u32 = 3;

/// Sub-pixel units per world pixel.
pub const SUBPIXELS: i32 = 1000;

/// Edge length of the player's bounding box, in pixels.
pub const PLAYER_SIZE: u32 = 10;

/// Column at which a fresh player starts, in sub-pixels.
pub const START_X: i32 = 50000;

/// Row at which a fresh player starts, in sub-pixels.
pub const START_Y: i32 = 80000;

/// Ground the player loses on every tick, in sub-pixels.
pub const DRIFT: i32 = 10;

/// Forward push granted by a boost tile, in sub-pixels.
pub const BOOST_PUSH: i32 = 5000;

/// Rightmost position of the player, in sub-pixels: `MAX_PLAYER_X * SUBPIXELS`.
pub const MAX_X: i32 = 59000;

/// Number of equal parts into which a tick's vertical motion is divided.
pub const SUBSTEPS: i32 = 5;

/// Downward speed gained in each free sub-step, in sub-pixels per tick.
pub const GRAVITY_PER_SUBSTEP: i32 = 30;

/// Upward speed gained when a jump starts, in sub-pixels per tick.
pub const JUMP_IMPULSE: i32 = 1500;

/// Upward speed gained once more while the jump key is held in the window.
pub const JUMP_BONUS: i32 = 1500;

/// The bonus window opens after this many milliseconds since the jump began.
pub const BONUS_OPENS_MS: u64 = 100;

/// The bonus window has closed once this many milliseconds have passed.
pub const BONUS_CLOSES_MS: u64 = 150;

/// Rows at the bottom of the viewport that count as out of frame.
pub const FLOOR_MARGIN: u32 = 6;

/// Shortest time between two boost sounds, in milliseconds.
pub const BOOST_CUE_COOLDOWN_MS: u64 = 500;

/// Time budget of one tick at sixty ticks per second, in milliseconds.
pub const FRAME_TIME_MS: u64 = 16;

} // verus!
