//! Colours and the terrain classes they stand for.

use vstd::prelude::*;

verus! {

/// A colour without its alpha channel.
#[derive(Clone, Copy, Debug, PartialEq, Eq, Structural)]
pub struct Rgb {
    pub red: u8,
    pub green: u8,
    pub blue: u8,
}

impl Rgb {
    pub fn new(red: u8, green: u8, blue: u8) -> (c: Rgb)
        ensures
            c == (Rgb { red, green, blue }),
    {
        Rgb { red, green, blue }
    }
}

/// What a tile means to the simulation.
#[derive(Clone, Copy, Debug, PartialEq, Eq, Structural)]
pub enum TileClass {
    Empty,
    Solid,
    Hazard,
    Boost,
}

/// The terrain class that a colour encodes: white is solid ground, one red
/// is a hazard, one blue is a boost, every other colour is empty space.
pub open spec fn class_of(c: Rgb) -> TileClass {
    if c.red == 255 && c.green == 255 && c.blue == 255 {
        TileClass::Solid
    } else if c.red == 217 && c.green == 87 && c.blue == 99 {
        TileClass::Hazard
    } else if c.red == 99 && c.green == 155 && c.blue == 255 {
        TileClass::Boost
    } else {
        TileClass::Empty
    }
}

impl TileClass {
    /// Whether a falling body is stopped by a tile of this class.
    pub open spec fn stops(self) -> bool {
        self == TileClass::Solid || self == TileClass::Boost
    }

    /// Decodes a colour into its terrain class.
    pub fn from_rgb(rgb: &Rgb) -> (class: TileClass)
        ensures
            class == class_of(*rgb),
    {
        if same_rgb(rgb, &Rgb::new(255, 255, 255)) {
            TileClass::Solid
        } else if same_rgb(rgb, &Rgb::new(217, 87, 99)) {
            TileClass::Hazard
        } else if same_rgb(rgb, &Rgb::new(99, 155, 255)) {
            TileClass::Boost
        } else {
            TileClass::Empty
        }
    }

    /// Whether a falling body is stopped by a tile of this class.
    pub fn is_stopping(self) -> (b: bool)
        ensures
            b == self.stops(),
    {
        match self {
            TileClass::Solid => true,
            TileClass::Boost => true,
            _ => false,
        }
    }
}

/// Whether two colours agree in all three channels.
pub fn same_rgb(rgb: &Rgb, rgb2: &Rgb) -> (same: bool)
    ensures
        same == (*rgb == *rgb2),
{
    rgb.red == rgb2.red && rgb.green == rgb2.green && rgb.blue == rgb2.blue
}

/// Whether a colour encodes a tile that stops a falling body.
pub fn is_solid(rgb: &Rgb) -> (solid: bool)
    ensures
        solid == class_of(*rgb).stops(),
{
    same_rgb(rgb, &Rgb::new(255, 255, 255)) || same_rgb(rgb, &Rgb::new(99, 155, 255))
}

} // verus!
