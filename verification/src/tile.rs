//! Tiles: the solid or non-solid elements of the map, and their types.

use vstd::prelude::*;
use std::collections::HashMap;
use crate::display::{ColorDisplay, HasBackColor, HasTextColor, HasTextDisplay, TextDisplay};
use crate::module_loading::Weight;

verus! {

broadcast use vstd::std_specs::hash::group_hash_axioms;

/// Represents a tile, which is a solid or non-solid element of the map
#[derive(Clone, Copy, Debug)]
pub struct Tile {
    pub tile_type: u16,
    pub text_display: TextDisplay,
    pub color_display: ColorDisplay,
}

/// The tile of a type: it carries the type's id and is shown as the type is.
pub open spec fn tile_of(tile_type: u16, from: TileType) -> Tile {
    Tile { tile_type, text_display: from.text_display, color_display: from.color_display }
}

impl Tile {
    /// The tile of a type that is known to be registered.
    pub fn new_unchecked(tile_types: &HashMap<u16, TileType>, tile_type: u16) -> (tile: Self)
        requires
            tile_types@.contains_key(tile_type),
        ensures
            tile == tile_of(tile_type, tile_types@[tile_type]),
    {
        let tile_from_map = tile_types.get(&tile_type).unwrap();
        Self {
            tile_type,
            text_display: tile_from_map.text_display,
            color_display: tile_from_map.color_display,
        }
    }

    /// The tile of a type, if that type is registered.
    pub fn new(tile_types: &HashMap<u16, TileType>, tile_type: u16) -> (tile: Option<Self>)
        ensures
            tile == if tile_types@.contains_key(tile_type) {
                Some(tile_of(tile_type, tile_types@[tile_type]))
            } else {
                None
            },
    {
        match tile_types.get(&tile_type) {
            Some(tile_from_map) => Some(
                Self {
                    tile_type,
                    text_display: tile_from_map.text_display,
                    color_display: tile_from_map.color_display,
                },
            ),
            None => None,
        }
    }
}

/// Where something that is tracked by id stands, if it stands anywhere.
#[derive(Clone, Copy, Debug)]
pub struct PositionTracker {
    pub id: u32,
    pub position: Option<(usize, usize)>,
}

/// The types of tiles a Tile can represent
#[derive(Debug)]
pub struct TileType {
    pub identifier: u16,
    pub name: String,
    pub text_display: TextDisplay,
    pub color_display: ColorDisplay,
    pub solid: bool,
    pub world_gen_weight: Weight,
}

/// A tile type with its name as characters.
pub struct TileTypeView {
    pub identifier: u16,
    pub name: Seq<char>,
    pub text_display: TextDisplay,
    pub color_display: ColorDisplay,
    pub solid: bool,
    pub world_gen_weight: Weight,
}

impl View for TileType {
    type V = TileTypeView;

    open spec fn view(&self) -> TileTypeView {
        TileTypeView {
            identifier: self.identifier,
            name: self.name@,
            text_display: self.text_display,
            color_display: self.color_display,
            solid: self.solid,
            world_gen_weight: self.world_gen_weight,
        }
    }
}

impl HasTextColor for Tile {
    open spec fn text_colors(&self) -> ColorDisplay {
        self.color_display
    }

    fn ansi_text_colors(&self) -> ColorDisplay {
        self.color_display
    }
}

impl HasBackColor for Tile {
    open spec fn back_colors(&self) -> ColorDisplay {
        self.color_display
    }

    fn ansi_back_colors(&self) -> ColorDisplay {
        self.color_display
    }
}

impl HasTextDisplay for Tile {
    open spec fn characters(&self) -> TextDisplay {
        self.text_display
    }

    fn text_display(&self) -> TextDisplay {
        self.text_display
    }
}

} // verus!
