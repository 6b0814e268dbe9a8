//! The ground under the tiles, and its types.

use vstd::prelude::*;
use std::collections::HashMap;
use crate::display::{ColorDisplay, HasBackColor, HasTextColor, HasTextDisplay, TextDisplay};
use crate::module_loading::Weight;

verus! {

broadcast use vstd::std_specs::hash::group_hash_axioms;

/// Represents the ground
#[derive(Clone, Copy, Debug)]
pub struct Ground {
    pub ground_type: u16,
    pub text_display: TextDisplay,
    pub color_display: ColorDisplay,
}

/// The ground of a type: it carries the type's id and is shown as the type is.
pub open spec fn ground_of(ground_type: u16, from: GroundType) -> Ground {
    Ground { ground_type, text_display: from.text_display, color_display: from.color_display }
}

impl Ground {
    /// The ground of a type that is registered.
    pub fn new(ground_types: &HashMap<u16, GroundType>, ground_type: u16) -> (ground: Self)
        requires
            ground_types@.contains_key(ground_type),
        ensures
            ground == ground_of(ground_type, ground_types@[ground_type]),
    {
        let tile_from_map = ground_types.get(&ground_type).unwrap();
        Self {
            ground_type,
            text_display: tile_from_map.text_display,
            color_display: tile_from_map.color_display,
        }
    }
}

/// The types of ground that Ground can represent
#[derive(Clone, Copy, Debug)]
pub struct GroundType {
    pub identifier: u16,
    pub text_display: TextDisplay,
    pub color_display: ColorDisplay,
    pub solid: bool,
    pub world_gen_weight: Weight,
}

impl HasTextColor for Ground {
    open spec fn text_colors(&self) -> ColorDisplay {
        self.color_display
    }

    fn ansi_text_colors(&self) -> ColorDisplay {
        self.color_display
    }
}

impl HasBackColor for Ground {
    open spec fn back_colors(&self) -> ColorDisplay {
        self.color_display
    }

    fn ansi_back_colors(&self) -> ColorDisplay {
        self.color_display
    }
}

impl HasTextDisplay for Ground {
    open spec fn characters(&self) -> TextDisplay {
        self.text_display
    }

    fn text_display(&self) -> TextDisplay {
        self.text_display
    }
}

} // verus!
