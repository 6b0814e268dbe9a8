//! What scripts say of the interface: the elements that they describe as tables
//! are read into plain descriptions, which the drawing code turns into widgets.

use vstd::prelude::*;
use vstd::string::StringExecFns;
use crate::script::{
    ScriptTable, ScriptValue, color_of_table, color_parts, field, read_color, read_table,
    read_text, read_u16, table_field, text_field, u16_field,
};

verus! {

/// Why a table does not describe an element of the interface.
#[derive(Clone, Copy, Debug, PartialEq, Eq, Structural)]
pub enum UiError {
    /// A part is missing, of the wrong kind, or has a name that means nothing.
    Conversion,
    /// The element is of a kind that cannot be drawn yet.
    Unsupported,
}

/// Where a title stands on its line.
#[derive(Clone, Copy, Debug, PartialEq, Eq, Structural)]
pub enum UiAlignment {
    Left,
    Center,
    Right,
}

/// How the border of a block is drawn.
#[derive(Clone, Copy, Debug, PartialEq, Eq, Structural)]
pub enum UiBorderType {
    Plain,
    Rounded,
    Double,
    Thick,
}

/// The kinds of elements that scripts can name.
#[derive(Clone, Copy, Debug, PartialEq, Eq, Structural)]
pub enum WidgetType {
    Block,
    Tabs,
    List,
    Table,
    Paragraph,
    Chart,
    BarChart,
    Gauge,
    Sparkline,
}

/// The alignment that a name stands for.
pub open spec fn alignment_named(name: Seq<char>) -> Option<UiAlignment> {
    if name == "center"@ {
        Some(UiAlignment::Center)
    } else if name == "right"@ {
        Some(UiAlignment::Right)
    } else if name == "left"@ {
        Some(UiAlignment::Left)
    } else {
        None
    }
}

fn same_text(a: &str, b: &str) -> (same: bool)
    ensures
        same == (a@ == b@),
{
    String::from_str(a) == String::from_str(b)
}

/// The alignment that a name stands for.
pub fn str_to_ui_alignment(a: &str) -> (alignment: Result<UiAlignment, UiError>)
    ensures
        alignment == match alignment_named(a@) {
            Some(found) => Ok::<UiAlignment, UiError>(found),
            None => Err(UiError::Conversion),
        },
{
    if same_text(a, "center") {
        Ok(UiAlignment::Center)
    } else if same_text(a, "right") {
        Ok(UiAlignment::Right)
    } else if same_text(a, "left") {
        Ok(UiAlignment::Left)
    } else {
        Err(UiError::Conversion)
    }
}

/// The bit of the text modifier that a name stands for.
pub open spec fn modifier_named(name: Seq<char>) -> Option<u16> {
    if name == "bold"@ {
        Some(0b0000_0000_0001u16)
    } else if name == "dim"@ {
        Some(0b0000_0000_0010u16)
    } else if name == "italic"@ {
        Some(0b0000_0000_0100u16)
    } else if name == "underlined"@ {
        Some(0b0000_0000_1000u16)
    } else if name == "slowBlink"@ {
        Some(0b0000_0001_0000u16)
    } else if name == "rapidBlink"@ {
        Some(0b0000_0010_0000u16)
    } else if name == "reversed"@ {
        Some(0b0000_0100_0000u16)
    } else if name == "hidden"@ {
        Some(0b0000_1000_0000u16)
    } else if name == "crossedOut"@ {
        Some(0b0001_0000_0000u16)
    } else {
        None
    }
}

/// The bit of the text modifier that a name stands for.
pub fn text_modifier_bit(name: &str) -> (bit: Option<u16>)
    ensures
        bit == modifier_named(name@),
{
    if same_text(name, "bold") {
        Some(0b0000_0000_0001)
    } else if same_text(name, "dim") {
        Some(0b0000_0000_0010)
    } else if same_text(name, "italic") {
        Some(0b0000_0000_0100)
    } else if same_text(name, "underlined") {
        Some(0b0000_0000_1000)
    } else if same_text(name, "slowBlink") {
        Some(0b0000_0001_0000)
    } else if same_text(name, "rapidBlink") {
        Some(0b0000_0010_0000)
    } else if same_text(name, "reversed") {
        Some(0b0000_0100_0000)
    } else if same_text(name, "hidden") {
        Some(0b0000_1000_0000)
    } else if same_text(name, "crossedOut") {
        Some(0b0001_0000_0000)
    } else {
        None
    }
}

/// The bits of the sides of a border that a name stands for.
pub open spec fn border_named(name: Seq<char>) -> Option<u16> {
    if name == "all"@ {
        Some(0b0001_1110u16)
    } else if name == "bottom"@ {
        Some(0b0000_1000u16)
    } else if name == "left"@ {
        Some(0b0001_0000u16)
    } else if name == "top"@ {
        Some(0b0000_0010u16)
    } else if name == "none"@ {
        Some(0b0000_0001u16)
    } else {
        None
    }
}

/// The bits of the sides of a border that a name stands for.
pub fn border_bit(name: &str) -> (bit: Option<u16>)
    ensures
        bit == border_named(name@),
{
    if same_text(name, "all") {
        Some(0b0001_1110)
    } else if same_text(name, "bottom") {
        Some(0b0000_1000)
    } else if same_text(name, "left") {
        Some(0b0001_0000)
    } else if same_text(name, "top") {
        Some(0b0000_0010)
    } else if same_text(name, "none") {
        Some(0b0000_0001)
    } else {
        None
    }
}

/// The way of drawing a border that a name stands for.
pub open spec fn border_type_named(name: Seq<char>) -> Option<UiBorderType> {
    if name == "plain"@ {
        Some(UiBorderType::Plain)
    } else if name == "double"@ {
        Some(UiBorderType::Double)
    } else if name == "thick"@ {
        Some(UiBorderType::Thick)
    } else if name == "rounded"@ {
        Some(UiBorderType::Rounded)
    } else {
        None
    }
}

/// The way of drawing a border that a name stands for.
pub fn str_to_ui_border_type(name: &str) -> (border_type: Option<UiBorderType>)
    ensures
        border_type == border_type_named(name@),
{
    if same_text(name, "plain") {
        Some(UiBorderType::Plain)
    } else if same_text(name, "double") {
        Some(UiBorderType::Double)
    } else if same_text(name, "thick") {
        Some(UiBorderType::Thick)
    } else if same_text(name, "rounded") {
        Some(UiBorderType::Rounded)
    } else {
        None
    }
}

/// The kind of element that a name stands for.
pub open spec fn widget_named(name: Seq<char>) -> Option<WidgetType> {
    if name == "block"@ {
        Some(WidgetType::Block)
    } else if name == "tabs"@ {
        Some(WidgetType::Tabs)
    } else if name == "list"@ {
        Some(WidgetType::List)
    } else if name == "table"@ {
        Some(WidgetType::Table)
    } else if name == "paragraph"@ {
        Some(WidgetType::Paragraph)
    } else if name == "chart"@ {
        Some(WidgetType::Chart)
    } else if name == "barchart"@ {
        Some(WidgetType::BarChart)
    } else if name == "gauge"@ {
        Some(WidgetType::Gauge)
    } else if name == "sparkline"@ {
        Some(WidgetType::Sparkline)
    } else {
        None
    }
}

/// The kind of element that a name stands for.
pub fn str_to_widget_type(name: &str) -> (widget_type: Option<WidgetType>)
    ensures
        widget_type == widget_named(name@),
{
    if same_text(name, "block") {
        Some(WidgetType::Block)
    } else if same_text(name, "tabs") {
        Some(WidgetType::Tabs)
    } else if same_text(name, "list") {
        Some(WidgetType::List)
    } else if same_text(name, "table") {
        Some(WidgetType::Table)
    } else if same_text(name, "paragraph") {
        Some(WidgetType::Paragraph)
    } else if same_text(name, "chart") {
        Some(WidgetType::Chart)
    } else if same_text(name, "barchart") {
        Some(WidgetType::BarChart)
    } else if same_text(name, "gauge") {
        Some(WidgetType::Gauge)
    } else if same_text(name, "sparkline") {
        Some(WidgetType::Sparkline)
    } else {
        None
    }
}

/// What `str::to_lowercase` makes of a text.
pub uninterp spec fn lowercased(text: Seq<char>) -> Seq<char>;

/// Calls `str::to_lowercase`, which gives the lowercase equivalent of a text.
#[verifier::external_body]
fn to_lowercase(text: &str) -> (lower: String)
    ensures
        lower@ == lowercased(text@),
{
    text.to_lowercase()
}

/// A set of flags with the flags of `bit` switched on or off.
pub open spec fn switched(flags: u16, bit: u16, enabled: bool) -> u16 {
    if enabled {
        flags | bit
    } else {
        flags & !bit
    }
}

/// A set of flags with the flags of `bit` switched on or off.
pub fn switch_flags(flags: u16, bit: u16, enabled: bool) -> (now: u16)
    ensures
        now == switched(flags, bit, enabled),
{
    if enabled {
        flags | bit
    } else {
        flags & !bit
    }
}

/// Which names a table of flags is read by.
#[derive(Clone, Copy, Debug, PartialEq, Eq, Structural)]
pub enum FlagNames {
    TextModifiers,
    Borders,
}

/// The bit that a name stands for among the names of one kind.
pub open spec fn flag_named(names: FlagNames, name: Seq<char>) -> Option<u16> {
    match names {
        FlagNames::TextModifiers => modifier_named(name),
        FlagNames::Borders => border_named(name),
    }
}

/// The flags that the first `n` pairs of a table leave set. Each pair holds a
/// name and whether its flags are switched on or off; the name is taken in
/// lower case. A pair of another form, or a name that means nothing, is an error.
pub open spec fn flags_after(
    table: Seq<(ScriptValue, ScriptValue)>,
    names: FlagNames,
    n: int,
) -> Result<u16, UiError>
    decreases n,
{
    if n <= 0 {
        Ok(0u16)
    } else {
        match flags_after(table, names, n - 1) {
            Ok(flags) => match (table[n - 1].0, table[n - 1].1) {
                (ScriptValue::Text(name), ScriptValue::Boolean(enabled)) => match flag_named(
                    names,
                    lowercased(name@),
                ) {
                    Some(bit) => Ok(switched(flags, bit, enabled)),
                    None => Err(UiError::Conversion),
                },
                _ => Err(UiError::Conversion),
            },
            Err(e) => Err(e),
        }
    }
}

proof fn lemma_flags_error_stays(
    table: Seq<(ScriptValue, ScriptValue)>,
    names: FlagNames,
    n: int,
    m: int,
)
    requires
        0 <= n <= m,
        flags_after(table, names, n).is_err(),
    ensures
        flags_after(table, names, m) == flags_after(table, names, n),
    decreases m - n,
{
    if n < m {
        lemma_flags_error_stays(table, names, n, m - 1);
    }
}

/// The flags that a table of names leaves set.
pub fn flags_from_script(table: &ScriptTable, names: FlagNames) -> (flags: Result<u16, UiError>)
    ensures
        flags == flags_after(table@, names, table@.len() as int),
{
    let mut flags: u16 = 0;
    let mut i: usize = 0;
    while i < table.len()
        invariant
            i <= table@.len(),
            flags_after(table@, names, i as int) == Ok::<u16, UiError>(flags),
        decreases table@.len() - i,
    {
        let bit = match (&table[i].0, &table[i].1) {
            (ScriptValue::Text(name), ScriptValue::Boolean(enabled)) => {
                let lower = to_lowercase(name.as_str());
                let bit = match names {
                    FlagNames::TextModifiers => text_modifier_bit(lower.as_str()),
                    FlagNames::Borders => border_bit(lower.as_str()),
                };
                match bit {
                    Some(bit) => Some((bit, *enabled)),
                    None => None,
                }
            },
            _ => None,
        };
        match bit {
            Some((bit, enabled)) => {
                flags = switch_flags(flags, bit, enabled);
            },
            None => {
                proof {
                    assert(flags_after(table@, names, i + 1) == Err::<u16, UiError>(
                        UiError::Conversion,
                    ));
                    lemma_flags_error_stays(table@, names, i + 1, table@.len() as int);
                }
                return Err(UiError::Conversion);
            },
        }
        i += 1;
    }
    Ok(flags)
}

/// The text modifiers that a table of names leaves set.
pub fn lua_table_to_text_modifier(table: &ScriptTable) -> (modifiers: Result<u16, UiError>)
    ensures
        modifiers == flags_after(table@, FlagNames::TextModifiers, table@.len() as int),
{
    flags_from_script(table, FlagNames::TextModifiers)
}

/// How text is drawn: its colours, where they are set, and its modifiers.
#[derive(Clone, Copy, Debug)]
pub struct UiStyle {
    pub bg: Option<(u8, u8, u8)>,
    pub fg: Option<(u8, u8, u8)>,
    pub modifiers: u16,
}

/// The colour that a table holds under `name`: none where no table stands
/// there, and an error where the table there is no colour.
pub open spec fn style_color(table: Seq<(ScriptValue, ScriptValue)>, name: Seq<char>) -> Result<
    Option<(u8, u8, u8)>,
    UiError,
> {
    if read_table(field(table, name)).is_none() {
        Ok(None)
    } else {
        match read_color(field(table, name)) {
            Some(color) => Ok(Some(color)),
            None => Err(UiError::Conversion),
        }
    }
}

/// The style that a table describes by `bg`, `fg` and `modifiers`.
pub open spec fn style_in(table: Seq<(ScriptValue, ScriptValue)>) -> Result<UiStyle, UiError> {
    match (style_color(table, "bg"@), style_color(table, "fg"@)) {
        (Ok(bg), Ok(fg)) => match read_table(field(table, "modifiers"@)) {
            Some(names) => match flags_after(names, FlagNames::TextModifiers, names.len() as int) {
                Ok(modifiers) => Ok(UiStyle { bg, fg, modifiers }),
                Err(e) => Err(e),
            },
            None => Ok(UiStyle { bg, fg, modifiers: 0 }),
        },
        _ => Err(UiError::Conversion),
    }
}

fn style_color_field(table: &ScriptTable, name: &str) -> (color: Result<
    Option<(u8, u8, u8)>,
    UiError,
>)
    ensures
        color == style_color(table@, name@),
{
    match table_field(table, name) {
        Some(parts) => match lua_table_to_color(parts) {
            Ok(color) => Ok(Some(color)),
            Err(e) => Err(e),
        },
        None => Ok(None),
    }
}

/// The colour that a table holds at its positions 1, 2 and 3.
pub fn lua_table_to_color(table: &ScriptTable) -> (color: Result<(u8, u8, u8), UiError>)
    ensures
        color == match color_parts(table@) {
            Some(found) => Ok::<(u8, u8, u8), UiError>(found),
            None => Err(UiError::Conversion),
        },
{
    match color_of_table(table) {
        Some(color) => Ok(color),
        None => Err(UiError::Conversion),
    }
}

/// The style that a table describes.
pub fn lua_table_to_ui_style(table: &ScriptTable) -> (style: Result<UiStyle, UiError>)
    ensures
        style == style_in(table@),
{
    let bg = match style_color_field(table, "bg") {
        Ok(bg) => bg,
        Err(_) => {
            return Err(UiError::Conversion);
        },
    };
    let fg = match style_color_field(table, "fg") {
        Ok(fg) => fg,
        Err(_) => {
            return Err(UiError::Conversion);
        },
    };
    match table_field(table, "modifiers") {
        Some(names) => match lua_table_to_text_modifier(names) {
            Ok(modifiers) => Ok(UiStyle { bg, fg, modifiers }),
            Err(e) => Err(e),
        },
        None => Ok(UiStyle { bg, fg, modifiers: 0 }),
    }
}

/// A rectangle of the terminal.
#[derive(Clone, Copy, Debug, PartialEq, Eq, Structural)]
pub struct UiRect {
    pub x: u16,
    pub y: u16,
    pub width: u16,
    pub height: u16,
}

/// A block: a frame with an optional title.
#[derive(Clone, Debug)]
pub struct UiBlock {
    pub title: Option<String>,
    pub title_alignment: Option<UiAlignment>,
    pub style: Option<UiStyle>,
    pub borders: Option<u16>,
    pub border_type: Option<UiBorderType>,
}

/// An element of the interface: what is drawn, and where.
#[derive(Clone, Debug)]
pub struct UiElement {
    pub widget_type: WidgetType,
    pub block: UiBlock,
    pub rect: UiRect,
}

/// The rectangle that a table describes by `x`, `y`, `width` and `height`.
pub open spec fn rect_in(table: Seq<(ScriptValue, ScriptValue)>) -> Option<UiRect> {
    match (
        read_u16(field(table, "x"@)),
        read_u16(field(table, "y"@)),
        read_u16(field(table, "width"@)),
        read_u16(field(table, "height"@)),
    ) {
        (Some(x), Some(y), Some(width), Some(height)) => Some(UiRect { x, y, width, height }),
        _ => None,
    }
}

/// The alignment of the title that a block's table names, the name taken in
/// lower case: none where no text stands under `titleAlignment`.
pub open spec fn title_alignment_in(data: Seq<(ScriptValue, ScriptValue)>) -> Result<
    Option<UiAlignment>,
    UiError,
> {
    match read_text(field(data, "titleAlignment"@)) {
        Some(name) => match alignment_named(lowercased(name@)) {
            Some(alignment) => Ok(Some(alignment)),
            None => Err(UiError::Conversion),
        },
        None => Ok(None),
    }
}

/// The style that a block's table describes: none where no table stands under
/// `style`.
pub open spec fn block_style_in(data: Seq<(ScriptValue, ScriptValue)>) -> Result<
    Option<UiStyle>,
    UiError,
> {
    match read_table(field(data, "style"@)) {
        Some(style) => match style_in(style) {
            Ok(style) => Ok(Some(style)),
            Err(e) => Err(e),
        },
        None => Ok(None),
    }
}

/// The sides of the border that a block's table switches on: none where no
/// table stands under `borders`.
pub open spec fn borders_in(data: Seq<(ScriptValue, ScriptValue)>) -> Result<Option<u16>, UiError> {
    match read_table(field(data, "borders"@)) {
        Some(names) => match flags_after(names, FlagNames::Borders, names.len() as int) {
            Ok(borders) => Ok(Some(borders)),
            Err(e) => Err(e),
        },
        None => Ok(None),
    }
}

/// The way of drawing the border that a block's table names: none where no
/// text stands under `borderType`.
pub open spec fn border_type_in(data: Seq<(ScriptValue, ScriptValue)>) -> Result<
    Option<UiBorderType>,
    UiError,
> {
    match read_text(field(data, "borderType"@)) {
        Some(name) => match border_type_named(name@) {
            Some(border_type) => Ok(Some(border_type)),
            None => Err(UiError::Conversion),
        },
        None => Ok(None),
    }
}

/// Whether `block` is the block that a table describes.
pub open spec fn is_block_of(block: UiBlock, data: Seq<(ScriptValue, ScriptValue)>) -> bool {
    &&& block.title == read_text(field(data, "title"@))
    &&& title_alignment_in(data) == Ok::<Option<UiAlignment>, UiError>(block.title_alignment)
    &&& block_style_in(data) == Ok::<Option<UiStyle>, UiError>(block.style)
    &&& borders_in(data) == Ok::<Option<u16>, UiError>(block.borders)
    &&& border_type_in(data) == Ok::<Option<UiBorderType>, UiError>(block.border_type)
}

/// Whether a table describes a block: each part that is there is a good one.
pub open spec fn describes_block(data: Seq<(ScriptValue, ScriptValue)>) -> bool {
    title_alignment_in(data).is_ok() && block_style_in(data).is_ok() && borders_in(data).is_ok()
        && border_type_in(data).is_ok()
}

/// The block that a table describes.
pub fn block_from_script(data: &ScriptTable) -> (block: Result<UiBlock, UiError>)
    ensures
        match block {
            Ok(b) => is_block_of(b, data@),
            Err(e) => !describes_block(data@) && e == UiError::Conversion,
        },
{
    let title = text_field(data, "title");
    let title_alignment = match text_field(data, "titleAlignment") {
        Some(name) => {
            let lower = to_lowercase(name.as_str());
            match str_to_ui_alignment(lower.as_str()) {
                Ok(alignment) => Some(alignment),
                Err(_) => {
                    return Err(UiError::Conversion);
                },
            }
        },
        None => None,
    };
    let style = match table_field(data, "style") {
        Some(style) => match lua_table_to_ui_style(style) {
            Ok(style) => Some(style),
            Err(e) => {
                assert(e == UiError::Conversion) by {
                    lemma_style_error(style@);
                }
                return Err(UiError::Conversion);
            },
        },
        None => None,
    };
    let borders = match table_field(data, "borders") {
        Some(names) => match flags_from_script(names, FlagNames::Borders) {
            Ok(borders) => Some(borders),
            Err(_) => {
                return Err(UiError::Conversion);
            },
        },
        None => None,
    };
    let border_type = match text_field(data, "borderType") {
        Some(name) => match str_to_ui_border_type(name.as_str()) {
            Some(border_type) => Some(border_type),
            None => {
                return Err(UiError::Conversion);
            },
        },
        None => None,
    };
    Ok(UiBlock { title, title_alignment, style, borders, border_type })
}

proof fn lemma_flags_error(table: Seq<(ScriptValue, ScriptValue)>, names: FlagNames, n: int)
    ensures
        flags_after(table, names, n).is_err() ==> flags_after(table, names, n) == Err::<
            u16,
            UiError,
        >(UiError::Conversion),
    decreases n,
{
    if n > 0 {
        lemma_flags_error(table, names, n - 1);
    }
}

proof fn lemma_style_error(table: Seq<(ScriptValue, ScriptValue)>)
    ensures
        style_in(table).is_err() ==> style_in(table) == Err::<UiStyle, UiError>(
            UiError::Conversion,
        ),
{
    match read_table(field(table, "modifiers"@)) {
        Some(names) => {
            lemma_flags_error(names, FlagNames::TextModifiers, names.len() as int);
        },
        None => {},
    }
}

/// Whether `found` is what a table makes of an element: the element that it
/// describes, or the reason why it describes none. The table must hold a table
/// under `data`, a rectangle under `rect` and the name of a kind under `type`.
/// Only blocks can be described so far; a kind that means nothing is unsupported
/// like the kinds that are not drawn yet.
pub open spec fn is_element_of(
    found: Result<UiElement, UiError>,
    table: Seq<(ScriptValue, ScriptValue)>,
) -> bool {
    let data = read_table(field(table, "data"@));
    let rect = match read_table(field(table, "rect"@)) {
        Some(rect) => rect_in(rect),
        None => None,
    };
    let kind = read_text(field(table, "type"@));
    if data.is_none() || rect.is_none() || kind.is_none() {
        found.is_err() && found->Err_0 == UiError::Conversion
    } else if widget_named(kind.unwrap()@) != Some(WidgetType::Block) {
        found.is_err() && found->Err_0 == UiError::Unsupported
    } else if !describes_block(data.unwrap()) {
        found.is_err() && found->Err_0 == UiError::Conversion
    } else {
        &&& found.is_ok()
        &&& found->Ok_0.widget_type == WidgetType::Block
        &&& found->Ok_0.rect == rect.unwrap()
        &&& is_block_of(found->Ok_0.block, data.unwrap())
    }
}

/// The element of the interface that a table describes.
pub fn lua_table_to_ui_element(table: &ScriptTable) -> (found: Result<UiElement, UiError>)
    ensures
        is_element_of(found, table@),
{
    let data = match table_field(table, "data") {
        Some(data) => data,
        None => {
            return Err(UiError::Conversion);
        },
    };
    let rect = match table_field(table, "rect") {
        Some(rect) => match (
            u16_field(rect, "x"),
            u16_field(rect, "y"),
            u16_field(rect, "width"),
            u16_field(rect, "height"),
        ) {
            (Some(x), Some(y), Some(width), Some(height)) => UiRect { x, y, width, height },
            _ => {
                return Err(UiError::Conversion);
            },
        },
        None => {
            return Err(UiError::Conversion);
        },
    };
    let kind = match text_field(table, "type") {
        Some(kind) => kind,
        None => {
            return Err(UiError::Conversion);
        },
    };
    match str_to_widget_type(kind.as_str()) {
        Some(WidgetType::Block) => match block_from_script(data) {
            Ok(block) => Ok(UiElement { widget_type: WidgetType::Block, block, rect }),
            Err(e) => Err(e),
        },
        _ => Err(UiError::Unsupported),
    }
}

} // verus!
