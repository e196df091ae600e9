//! Simulation core of a side-scrolling endless runner.
//!
//! The crate holds the tile world and its two-page scroll protocol, the
//! player's fixed-step physics, the game state machine, the score rules and
//! the software renderer that fills the frame buffer. Every function carries
//! a contract that Verus proves.

pub mod bitmap;
pub mod frame;
pub mod game;
pub mod player;
pub mod render;
pub mod scene;
pub mod score;
pub mod tile;
pub mod timer;
pub mod tuning;
pub mod world;
