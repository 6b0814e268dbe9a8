//! What the terminal is sent for one cell of the map, and which cells of the
//! map a view around the player shows.

use vstd::prelude::*;
use vstd::string::StringExecFns;
use crate::display::{
    ColorDisplay, HasBackColor, HasTextColor, HasTextDisplay, ANSI_DEFAULT_TEXT_COLOR, color_format,
    color_format_char, default_text_color, string_push,
};
use crate::player::{Player, Point};

verus! {

/// The character of a decimal digit.
pub open spec fn digit(d: nat) -> char {
    if d == 0 {
        '0'
    } else if d == 1 {
        '1'
    } else if d == 2 {
        '2'
    } else if d == 3 {
        '3'
    } else if d == 4 {
        '4'
    } else if d == 5 {
        '5'
    } else if d == 6 {
        '6'
    } else if d == 7 {
        '7'
    } else if d == 8 {
        '8'
    } else {
        '9'
    }
}

/// A number in decimal, without leading zeros.
pub open spec fn decimal(n: nat) -> Seq<char>
    decreases n,
{
    if n < 10 {
        seq![digit(n)]
    } else {
        decimal(n / 10).push(digit(n % 10))
    }
}

fn digit_char(d: u8) -> (c: char)
    requires
        d < 10,
    ensures
        c == digit(d as nat),
{
    if d == 0 {
        '0'
    } else if d == 1 {
        '1'
    } else if d == 2 {
        '2'
    } else if d == 3 {
        '3'
    } else if d == 4 {
        '4'
    } else if d == 5 {
        '5'
    } else if d == 6 {
        '6'
    } else if d == 7 {
        '7'
    } else if d == 8 {
        '8'
    } else {
        '9'
    }
}

fn push_decimal(s: &mut String, n: u8)
    ensures
        final(s)@ == old(s)@ + decimal(n as nat),
{
    reveal_with_fuel(decimal, 3);
    if n >= 100 {
        string_push(s, digit_char(n / 100));
    }
    if n >= 10 {
        string_push(s, digit_char((n / 10) % 10));
    }
    string_push(s, digit_char(n % 10));
    assert(s@ =~= old(s)@ + decimal(n as nat));
}

/// The three parts of a colour in decimal, with semicolons between them.
pub open spec fn rgb_decimal(color: (u8, u8, u8)) -> Seq<char> {
    decimal(color.0 as nat) + seq![';'] + decimal(color.1 as nat) + seq![';'] + decimal(
        color.2 as nat,
    )
}

/// The selector of a text colour: `38;2;`, the colour, and a semicolon.
pub open spec fn text_selector(color: (u8, u8, u8)) -> Seq<char> {
    seq!['3', '8', ';', '2', ';'] + rgb_decimal(color) + seq![';']
}

/// The selector of a background colour: `48;2;` and the colour.
pub open spec fn back_selector(color: (u8, u8, u8)) -> Seq<char> {
    seq!['4', '8', ';', '2', ';'] + rgb_decimal(color)
}

fn push_rgb(s: &mut String, color: (u8, u8, u8))
    ensures
        final(s)@ == old(s)@ + rgb_decimal(color),
{
    push_decimal(s, color.0);
    string_push(s, ';');
    push_decimal(s, color.1);
    string_push(s, ';');
    push_decimal(s, color.2);
    assert(s@ =~= old(s)@ + rgb_decimal(color));
}

fn text_selector_of(color: (u8, u8, u8)) -> (s: String)
    ensures
        s@ == text_selector(color),
{
    proof {
        reveal_strlit("38;2;");
    }
    let mut s = String::from_str("38;2;");
    push_rgb(&mut s, color);
    string_push(&mut s, ';');
    assert(s@ =~= text_selector(color));
    s
}

fn back_selector_of(color: (u8, u8, u8)) -> (s: String)
    ensures
        s@ == back_selector(color),
{
    proof {
        reveal_strlit("48;2;");
    }
    let mut s = String::from_str("48;2;");
    push_rgb(&mut s, color);
    assert(s@ =~= back_selector(color));
    s
}

fn default_text_selector() -> (s: String)
    ensures
        s@ == default_text_color(),
{
    proof {
        reveal_strlit("38;0;");
    }
    let s = String::from_str(ANSI_DEFAULT_TEXT_COLOR);
    assert(s@ =~= default_text_color());
    s
}

/// The first of the colours that is set.
pub open spec fn first_set(colors: Seq<Option<(u8, u8, u8)>>) -> Option<(u8, u8, u8)>
    decreases colors.len(),
{
    if colors.len() == 0 {
        None
    } else if colors[0].is_some() {
        colors[0]
    } else {
        first_set(colors.drop_first())
    }
}

/// The character that is shown for one that may be unset: a space where it is.
pub open spec fn shown(character: Option<char>) -> char {
    match character {
        Some(c) => c,
        None => ' ',
    }
}

/// The selector of the text colour of a tile's left half: its own, or else the
/// terminal's.
pub open spec fn left_text_selector(colors: ColorDisplay) -> Seq<char> {
    match colors.text_color_left {
        Some(color) => text_selector(color),
        None => default_text_color(),
    }
}

/// The selector of the text colour of a tile's right half: its own, or else
/// that of the left half, or else the terminal's.
pub open spec fn right_text_selector(colors: ColorDisplay) -> Seq<char> {
    match first_set(seq![colors.text_color_right, colors.text_color_left]) {
        Some(color) => text_selector(color),
        None => default_text_color(),
    }
}

/// The background of the left half of a cell: the tile's, or else the ground's.
pub open spec fn left_background(tile: ColorDisplay, ground: ColorDisplay) -> Option<(u8, u8, u8)> {
    first_set(seq![tile.back_color_left, ground.back_color_left])
}

/// The background of the right half of a cell: the tile's, or else the ground's
/// right one, or else the ground's left one.
pub open spec fn right_background(tile: ColorDisplay, ground: ColorDisplay) -> Option<
    (u8, u8, u8),
> {
    first_set(seq![tile.back_color_right, ground.back_color_right, ground.back_color_left])
}

/// What is sent for the left half of the cell at `point`. Where the player
/// stands, the player's left character is shown in the terminal's text colour on
/// the ground; elsewhere the tile's left character in the tile's colours.
pub open spec fn left_tile_display<T: HasTextColor + HasBackColor + HasTextDisplay>(
    point: Point,
    player: Player,
    tile: &T,
    ground_colors: ColorDisplay,
) -> Seq<char> {
    if point == player.position {
        color_format(
            default_text_color(),
            back_selector(ground_colors.back_color_left.unwrap()),
            shown(player.text_display.character_left),
        )
    } else {
        color_format(
            left_text_selector(tile.text_colors()),
            back_selector(left_background(tile.back_colors(), ground_colors).unwrap()),
            shown(tile.characters().character_left),
        )
    }
}

/// What is sent for the right half of a cell: the tile's right character in the
/// tile's colours.
pub open spec fn right_tile_display<T: HasTextColor + HasBackColor + HasTextDisplay>(
    tile: &T,
    ground_colors: ColorDisplay,
) -> Seq<char> {
    color_format(
        right_text_selector(tile.text_colors()),
        back_selector(right_background(tile.back_colors(), ground_colors).unwrap()),
        shown(tile.characters().character_right),
    )
}

/// Used in display_map() to determine the left end of rendering
pub fn get_left_tile_display<T: HasTextColor + HasBackColor + HasTextDisplay>(
    point: Point,
    player: &Player,
    tile: &T,
    ground_colors: ColorDisplay,
) -> (left: String)
    requires
        point == player.position ==> ground_colors.back_color_left.is_some(),
        point != player.position ==> left_background(tile.back_colors(), ground_colors).is_some(),
    ensures
        left@ == left_tile_display(point, *player, tile, ground_colors),
{
    reveal_with_fuel(first_set, 3);
    if point == player.position {
        let text_color = default_text_selector();
        let back_color = match ground_colors.back_color_left {
            Some(color) => back_selector_of(color),
            None => String::new(),
        };
        let character = match player.text_display.character_left {
            Some(c) => c,
            None => ' ',
        };
        color_format_char(text_color, back_color, character)
    } else {
        let text_color = match tile.ansi_text_colors().text_color_left {
            Some(color) => text_selector_of(color),
            None => default_text_selector(),
        };
        let back_color = match (tile.ansi_back_colors().back_color_left, ground_colors.back_color_left) {
            (Some(color), _) => back_selector_of(color),
            (None, Some(color)) => back_selector_of(color),
            (None, None) => String::new(),
        };
        let character = match tile.text_display().character_left {
            Some(c) => c,
            None => ' ',
        };
        assert(seq![tile.back_colors().back_color_left, ground_colors.back_color_left].drop_first()
            =~= seq![ground_colors.back_color_left]);
        color_format_char(text_color, back_color, character)
    }
}

/// Used in map_display() to determine the right end of rendering
pub fn get_right_tile_display<T: HasTextColor + HasBackColor + HasTextDisplay>(
    tile: &T,
    ground_colors: ColorDisplay,
) -> (right: String)
    requires
        right_background(tile.back_colors(), ground_colors).is_some(),
    ensures
        right@ == right_tile_display(tile, ground_colors),
{
    reveal_with_fuel(first_set, 4);
    let text_colors = tile.ansi_text_colors();
    let text_color = match (text_colors.text_color_right, text_colors.text_color_left) {
        (Some(color), _) => text_selector_of(color),
        (None, Some(color)) => text_selector_of(color),
        (None, None) => default_text_selector(),
    };
    let back_color = match (
        tile.ansi_back_colors().back_color_right,
        ground_colors.back_color_right,
        ground_colors.back_color_left,
    ) {
        (Some(color), _, _) => back_selector_of(color),
        (None, Some(color), _) => back_selector_of(color),
        (None, None, Some(color)) => back_selector_of(color),
        (None, None, None) => String::new(),
    };
    let character = match tile.text_display().character_right {
        Some(character) => character,
        None => ' ',
    };
    proof {
        let texts = seq![tile.text_colors().text_color_right, tile.text_colors().text_color_left];
        assert(texts.drop_first() =~= seq![tile.text_colors().text_color_left]);
        let backs = seq![
            tile.back_colors().back_color_right,
            ground_colors.back_color_right,
            ground_colors.back_color_left,
        ];
        assert(backs.drop_first() =~= seq![
            ground_colors.back_color_right,
            ground_colors.back_color_left,
        ]);
        assert(backs.drop_first().drop_first() =~= seq![ground_colors.back_color_left]);
    }
    color_format_char(text_color, back_color, character)
}

/// The coordinates from `from` up to `to`, `to` left out.
pub open spec fn span(from: int, to: int) -> Seq<i128> {
    Seq::new((if to > from { to - from } else { 0 }) as nat, |k: int| (from + k) as i128)
}

/// The coordinates that a view shows along one axis. The view reaches half of
/// `display` to each side of `middle`. It lists what lies before the map, then
/// what lies on the map, which has `size` cells, then what lies behind it.
pub open spec fn view_axis(middle: int, display: int, size: int) -> Seq<i128> {
    let low = middle - display / 2;
    let high = middle + display / 2;
    span(low, 0) + span(if low > 0 { low } else { 0 }, if high < size { high } else { size })
        + span(size, high)
}

fn push_span(cells: &mut Vec<i128>, from: i128, to: i128)
    ensures
        final(cells)@ == old(cells)@ + span(from as int, to as int),
{
    let mut next = from;
    while next < to
        invariant
            from <= next <= to || (to < from && next == from),
            cells@ == old(cells)@ + span(from as int, next as int),
        decreases to - next,
    {
        cells.push(next);
        next += 1;
        assert(cells@ =~= old(cells)@ + span(from as int, next as int));
    }
    assert(cells@ =~= old(cells)@ + span(from as int, to as int));
}

/// The coordinates that the view around the player shows along one axis, in
/// the order in which they are drawn.
pub fn displayed_cells(middle: usize, display: usize, size: usize) -> (cells: Vec<i128>)
    ensures
        cells@ == view_axis(middle as int, display as int, size as int),
{
    let reach = (display / 2) as i128;
    let low = middle as i128 - reach;
    let high = middle as i128 + reach;
    let size = size as i128;
    let mut cells: Vec<i128> = Vec::new();
    push_span(&mut cells, low, 0);
    push_span(&mut cells, if low > 0 { low } else { 0 }, if high < size { high } else { size });
    push_span(&mut cells, size, high);
    cells
}

/// Whether a cell that the view shows lies on a map of the given size.
pub fn on_map(x: i128, y: i128, map_width: usize, map_height: usize) -> (on: bool)
    ensures
        on == (0 <= x < map_width && 0 <= y < map_height),
{
    0 <= x && 0 <= y && x < map_width as i128 && y < map_height as i128
}

/// The character that a byte of noise is drawn as beyond the map: itself where
/// it is a printable character of Latin-1, else the replacement character.
pub open spec fn farlands_character(noise: u8) -> char {
    if 0x20 <= noise <= 0x7E || 0xA0 <= noise <= 0xAC || 0xAE <= noise {
        noise as char
    } else {
        '\u{FFFD}'
    }
}

/// The character that a byte of noise is drawn as beyond the map.
pub fn farlands_glyph(noise: u8) -> (c: char)
    ensures
        c == farlands_character(noise),
{
    if (0x20 <= noise && noise <= 0x7E) || (0xA0 <= noise && noise <= 0xAC) || 0xAE <= noise {
        noise as char
    } else {
        '\u{FFFD}'
    }
}

/// What is sent for one half of a cell beyond the map: the character in the
/// given colours.
pub fn farlands_tile_display(glyph: char, text_color: (u8, u8, u8), back_color: (u8, u8, u8)) -> (s:
    String)
    ensures
        s@ == color_format(text_selector(text_color), back_selector(back_color), glyph),
{
    color_format_char(text_selector_of(text_color), back_selector_of(back_color), glyph)
}

/// The counter that stirs the noise beyond the map.
#[derive(Clone, Copy, Debug)]
pub struct FarlandsNoise {
    pub calls: u8,
}

impl FarlandsNoise {
    /// Steps the counter by one and adds it to `source`, both without carry.
    pub fn byte(&mut self, source: u8) -> (noise: u8)
        ensures
            final(self).calls as int == (old(self).calls + 1) % 256,
            noise as int == (source + final(self).calls) % 256,
    {
        self.calls = self.calls.wrapping_add(1);
        source.wrapping_add(self.calls)
    }

    /// Triples the counter and adds it to `source`, both without carry.
    pub fn byte_alt(&mut self, source: u8) -> (noise: u8)
        ensures
            final(self).calls as int == (old(self).calls * 3) % 256,
            noise as int == (source + final(self).calls) % 256,
    {
        self.calls = self.calls.wrapping_mul(3);
        source.wrapping_add(self.calls)
    }
}

} // verus!
