//! Predefined color constants for common colors.

use vstd::prelude::*;

verus! {

pub const RED: (u8, u8, u8) = (255, 0, 0);

pub const GREEN: (u8, u8, u8) = (0, 255, 0);

pub const BLUE: (u8, u8, u8) = (0, 0, 255);

pub const YELLOW: (u8, u8, u8) = (255, 255, 0);

pub const CYAN: (u8, u8, u8) = (0, 255, 255);

pub const MAGENTA: (u8, u8, u8) = (255, 0, 255);

pub const WHITE: (u8, u8, u8) = (255, 255, 255);

pub const BLACK: (u8, u8, u8) = (0, 0, 0);

pub const ORANGE: (u8, u8, u8) = (255, 165, 0);

pub const PURPLE: (u8, u8, u8) = (128, 0, 128);

pub const PINK: (u8, u8, u8) = (255, 192, 203);

pub const BROWN: (u8, u8, u8) = (165, 42, 42);

} // verus!
