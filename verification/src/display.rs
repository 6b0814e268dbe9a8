//! How a map cell is drawn: a pair of characters, up to four colours, and the
//! terminal escape sequence that shows one character in its colours.

use vstd::prelude::*;
use vstd::string::StringExecFns;

verus! {

/// The colour selector that leaves the terminal's own text colour in place.
pub const ANSI_DEFAULT_TEXT_COLOR: &'static str = "38;0;";

/// The characters of `ANSI_DEFAULT_TEXT_COLOR`.
pub open spec fn default_text_color() -> Seq<char> {
    seq!['3', '8', ';', '0', ';']
}

/// 2 characters which represents how to display something
#[derive(Clone, Copy, Debug)]
pub struct TextDisplay {
    pub character_left: Option<char>,
    pub character_right: Option<char>,
}

/// Collects the two characters of a [`TextDisplay`].
#[derive(Clone, Copy, Debug)]
pub struct TextDisplayBuilder {
    pub character_left: Option<char>,
    pub character_right: Option<char>,
}

/// 2 colors which represent how to display something
#[derive(Clone, Copy, Debug)]
pub struct ColorDisplay {
    pub text_color_left: Option<(u8, u8, u8)>,
    pub back_color_left: Option<(u8, u8, u8)>,
    pub text_color_right: Option<(u8, u8, u8)>,
    pub back_color_right: Option<(u8, u8, u8)>,
}

/// Collects the four colours of a [`ColorDisplay`].
#[derive(Clone, Copy, Debug)]
pub struct ColorDisplayBuilder {
    pub text_color_left: Option<(u8, u8, u8)>,
    pub back_color_left: Option<(u8, u8, u8)>,
    pub text_color_right: Option<(u8, u8, u8)>,
    pub back_color_right: Option<(u8, u8, u8)>,
}

impl TextDisplayBuilder {
    /// A builder with neither character set.
    pub fn new() -> (b: Self)
        ensures
            b.character_left.is_none(),
            b.character_right.is_none(),
    {
        Self { character_left: None, character_right: None }
    }

    /// Sets the left character and leaves the right one as it was.
    pub fn character_left(&mut self, character_left: char) -> (b: &mut Self)
        ensures
            *b == (Self { character_left: Some(character_left), ..*old(self) }),
            *final(self) == *final(b),
    {
        self.character_left = Some(character_left);
        self
    }

    /// Sets the right character and leaves the left one as it was.
    pub fn character_right(&mut self, character_right: char) -> (b: &mut Self)
        ensures
            *b == (Self { character_right: Some(character_right), ..*old(self) }),
            *final(self) == *final(b),
    {
        self.character_right = Some(character_right);
        self
    }

    /// The display that holds what has been set so far.
    pub fn finalize(&self) -> (t: TextDisplay)
        ensures
            t.character_left == self.character_left,
            t.character_right == self.character_right,
    {
        TextDisplay { character_left: self.character_left, character_right: self.character_right }
    }
}

impl ColorDisplayBuilder {
    /// A builder with no colour set.
    pub fn new() -> (b: Self)
        ensures
            b.text_color_left.is_none(),
            b.back_color_left.is_none(),
            b.text_color_right.is_none(),
            b.back_color_right.is_none(),
    {
        Self {
            text_color_left: None,
            back_color_left: None,
            text_color_right: None,
            back_color_right: None,
        }
    }

    /// Sets the text colour of the left half and leaves the rest as it was.
    pub fn text_color_left(&mut self, text_color_left: (u8, u8, u8)) -> (b: &mut Self)
        ensures
            *b == (Self { text_color_left: Some(text_color_left), ..*old(self) }),
            *final(self) == *final(b),
    {
        self.text_color_left = Some(text_color_left);
        self
    }

    /// Sets the background colour of the left half and leaves the rest as it was.
    pub fn back_color_left(&mut self, back_color_left: (u8, u8, u8)) -> (b: &mut Self)
        ensures
            *b == (Self { back_color_left: Some(back_color_left), ..*old(self) }),
            *final(self) == *final(b),
    {
        self.back_color_left = Some(back_color_left);
        self
    }

    /// Sets the text colour of the right half and leaves the rest as it was.
    pub fn text_color_right(&mut self, text_color_right: (u8, u8, u8)) -> (b: &mut Self)
        ensures
            *b == (Self { text_color_right: Some(text_color_right), ..*old(self) }),
            *final(self) == *final(b),
    {
        self.text_color_right = Some(text_color_right);
        self
    }

    /// Sets the background colour of the right half and leaves the rest as it was.
    pub fn back_color_right(&mut self, back_color_right: (u8, u8, u8)) -> (b: &mut Self)
        ensures
            *b == (Self { back_color_right: Some(back_color_right), ..*old(self) }),
            *final(self) == *final(b),
    {
        self.back_color_right = Some(back_color_right);
        self
    }

    /// The display that holds what has been set so far.
    pub fn finalize(&self) -> (c: ColorDisplay)
        ensures
            c.text_color_left == self.text_color_left,
            c.back_color_left == self.back_color_left,
            c.text_color_right == self.text_color_right,
            c.back_color_right == self.back_color_right,
    {
        ColorDisplay {
            text_color_left: self.text_color_left,
            back_color_left: self.back_color_left,
            text_color_right: self.text_color_right,
            back_color_right: self.back_color_right,
        }
    }
}

/// Something that is drawn with text colours of its own.
pub trait HasTextColor {
    /// The colours that `ansi_text_colors` gives.
    spec fn text_colors(&self) -> ColorDisplay;

    fn ansi_text_colors(&self) -> (colors: ColorDisplay)
        ensures
            colors == self.text_colors(),
    ;
}

/// Something that is drawn with background colours of its own.
pub trait HasBackColor {
    /// The colours that `ansi_back_colors` gives.
    spec fn back_colors(&self) -> ColorDisplay;

    fn ansi_back_colors(&self) -> (colors: ColorDisplay)
        ensures
            colors == self.back_colors(),
    ;
}

/// Something that is drawn as a pair of characters.
pub trait HasTextDisplay {
    /// The characters that `text_display` gives.
    spec fn characters(&self) -> TextDisplay;

    fn text_display(&self) -> (text: TextDisplay)
        ensures
            text == self.characters(),
    ;
}

/// Calls `String::push`, which appends one character to the end of the string.
#[verifier::external_body]
pub(crate) fn string_push(s: &mut String, c: char)
    ensures
        final(s)@ == old(s)@.push(c),
{
    s.push(c);
}

/// The escape sequence that shows `c` in the given colours and then resets the
/// terminal's colours: ESC `[`, both selectors, `m`, the character, ESC `[0m`.
pub open spec fn color_format(text_color: Seq<char>, back_color: Seq<char>, c: char) -> Seq<char> {
    seq!['\u{1B}', '['] + text_color + back_color + seq!['m', c, '\u{1B}', '[', '0', 'm']
}

/// text and back color must be formatted as:
/// "(38/48);(0/2)(;###;###;###/)"
pub fn color_format_char(text_color: String, back_color: String, char: char) -> (s: String)
    ensures
        s@ == color_format(text_color@, back_color@, char),
{
    proof {
        reveal_strlit("\u{1B}[");
        reveal_strlit("m");
        reveal_strlit("\u{1B}[0m");
    }
    let mut s = String::from_str("\u{1B}[");
    s.append(text_color.as_str());
    s.append(back_color.as_str());
    s.append("m");
    string_push(&mut s, char);
    s.append("\u{1B}[0m");
    assert(s@ =~= color_format(text_color@, back_color@, char));
    s
}

} // verus!
