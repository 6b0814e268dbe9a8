//! The player.

use vstd::prelude::*;
use crate::display::{ColorDisplay, TextDisplay};

verus! {

/// A cell of the map: `x` counts columns and `y` rows.
#[derive(Clone, Copy, Debug, PartialEq, Eq, Structural)]
pub struct Point {
    pub x: usize,
    pub y: usize,
}

/// Represents the player
#[derive(Clone, Copy, Debug)]
pub struct Player {
    pub position: Point,
    pub text_display: TextDisplay,
    pub color_display: ColorDisplay,
}

impl Player {
    /// A player at `position`, shown as a smiling face in the colours of the
    /// ground below.
    pub fn new(position: Point) -> (player: Self)
        ensures
            player.position == position,
            player.text_display.character_left == Some('\u{263A}'),
            player.text_display.character_right.is_none(),
            player.color_display.text_color_left.is_none(),
            player.color_display.back_color_left.is_none(),
            player.color_display.text_color_right.is_none(),
            player.color_display.back_color_right.is_none(),
    {
        Self {
            position,
            text_display: TextDisplay { character_left: Some('\u{263A}'), character_right: None },
            color_display: ColorDisplay {
                text_color_left: None,
                back_color_left: None,
                text_color_right: None,
                back_color_right: None,
            },
        }
    }
}

} // verus!
