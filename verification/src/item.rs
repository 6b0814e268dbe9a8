//! Items and what holds them.

use vstd::prelude::*;
use crate::display::{ColorDisplay, TextDisplay};

verus! {

/// The stacks of items that something carries.
#[derive(Clone, Debug)]
pub struct Inventory {
    pub items: Vec<ItemStack>,
}

/// A number of items of one type.
#[derive(Clone, Copy, Debug)]
pub struct ItemStack {
    pub item_type: u16,
    pub count: u32,
}

/// The types of items that an ItemStack can hold
#[derive(Clone, Copy, Debug)]
pub struct ItemType {
    pub identifier: u16,
    pub text_display: TextDisplay,
    pub color_display: ColorDisplay,
}

} // verus!
