//! Declarations that scripts hand in. A script gives them as tables of its own
//! kind; here such a table is a list of key and value pairs, and the same
//! schema is read from it that declaration files have.

use vstd::prelude::*;
use vstd::string::StringExecFns;
use crate::module_loading::{
    ByteStreamDeserialData, DeserializationDump, GroundDeserialData, ItemDeserialData,
    ModuleDeserialization, is_merge_of, merge_module_declarations, ThingDeserialData,
    TileDeserialData, VisibleThingDeserialData, VisualDeserData, Weight,
};

verus! {

/// A number of a script: its value as a double precision number, and its value
/// as an integer where it has one.
#[derive(Clone, Copy, Debug)]
pub struct ScriptNumber {
    pub value: Weight,
    pub whole: Option<i64>,
}

/// A value of a script.
#[derive(Debug)]
pub enum ScriptValue {
    Nil,
    Boolean(bool),
    Number(ScriptNumber),
    Text(String),
    Table(Vec<(ScriptValue, ScriptValue)>),
}

/// A table of a script: its pairs of key and value, in the order in which the
/// script gives them.
pub type ScriptTable = Vec<(ScriptValue, ScriptValue)>;

/// Whether a key is the text `name`.
pub open spec fn is_name(key: ScriptValue, name: Seq<char>) -> bool {
    match key {
        ScriptValue::Text(text) => text@ == name,
        _ => false,
    }
}

/// Whether a key is the whole number `position`.
pub open spec fn is_position(key: ScriptValue, position: int) -> bool {
    match key {
        ScriptValue::Number(number) => match number.whole {
            Some(whole) => whole == position,
            None => false,
        },
        _ => false,
    }
}

/// The value of the first pair from `from` on whose key is the text `name`.
pub open spec fn field_from(
    table: Seq<(ScriptValue, ScriptValue)>,
    name: Seq<char>,
    from: int,
) -> Option<ScriptValue>
    decreases table.len() - from,
{
    if from < 0 || from >= table.len() {
        None
    } else if is_name(table[from].0, name) {
        Some(table[from].1)
    } else {
        field_from(table, name, from + 1)
    }
}

/// The value that a table holds under the text `name`.
pub open spec fn field(table: Seq<(ScriptValue, ScriptValue)>, name: Seq<char>) -> Option<
    ScriptValue,
> {
    field_from(table, name, 0)
}

/// The value of the first pair from `from` on whose key is the number `position`.
pub open spec fn element_from(
    table: Seq<(ScriptValue, ScriptValue)>,
    position: int,
    from: int,
) -> Option<ScriptValue>
    decreases table.len() - from,
{
    if from < 0 || from >= table.len() {
        None
    } else if is_position(table[from].0, position) {
        Some(table[from].1)
    } else {
        element_from(table, position, from + 1)
    }
}

/// The value that a table holds at a position, positions counting from 1.
pub open spec fn element(table: Seq<(ScriptValue, ScriptValue)>, position: int) -> Option<
    ScriptValue,
> {
    element_from(table, position, 0)
}

/// The value that a table holds under the text `name`.
pub fn get_field<'a>(table: &'a ScriptTable, name: &str) -> (value: Option<&'a ScriptValue>)
    ensures
        match value {
            Some(v) => field(table@, name@) == Some(*v),
            None => field(table@, name@).is_none(),
        },
{
    let wanted = String::from_str(name);
    let mut i: usize = 0;
    while i < table.len()
        invariant
            i <= table@.len(),
            wanted@ == name@,
            field(table@, name@) == field_from(table@, name@, i as int),
        decreases table@.len() - i,
    {
        if let ScriptValue::Text(text) = &table[i].0 {
            if *text == wanted {
                return Some(&table[i].1);
            }
        }
        i += 1;
    }
    None
}

/// The value that a table holds at a position.
pub fn get_element<'a>(table: &'a ScriptTable, position: i64) -> (value: Option<&'a ScriptValue>)
    ensures
        match value {
            Some(v) => element(table@, position as int) == Some(*v),
            None => element(table@, position as int).is_none(),
        },
{
    let mut i: usize = 0;
    while i < table.len()
        invariant
            i <= table@.len(),
            element(table@, position as int) == element_from(table@, position as int, i as int),
        decreases table@.len() - i,
    {
        if let ScriptValue::Number(number) = &table[i].0 {
            if let Some(whole) = number.whole {
                if whole == position {
                    return Some(&table[i].1);
                }
            }
        }
        i += 1;
    }
    None
}

/// The text that a value is, if it is one.
pub open spec fn read_text(value: Option<ScriptValue>) -> Option<String> {
    match value {
        Some(ScriptValue::Text(text)) => Some(text),
        _ => None,
    }
}

/// The truth value that a value is, if it is one.
pub open spec fn read_flag(value: Option<ScriptValue>) -> Option<bool> {
    match value {
        Some(ScriptValue::Boolean(flag)) => Some(flag),
        _ => None,
    }
}

/// The byte that a value is, if it is a whole number from 0 to 255.
pub open spec fn read_byte(value: Option<ScriptValue>) -> Option<u8> {
    match value {
        Some(ScriptValue::Number(number)) => match number.whole {
            Some(whole) => if 0 <= whole <= 255 {
                Some(whole as u8)
            } else {
                None
            },
            None => None,
        },
        _ => None,
    }
}

/// The weight that a value is, if it is a number.
pub open spec fn read_weight(value: Option<ScriptValue>) -> Option<Weight> {
    match value {
        Some(ScriptValue::Number(number)) => Some(number.value),
        _ => None,
    }
}

/// The pairs of a value, if it is a table.
pub open spec fn read_table(value: Option<ScriptValue>) -> Option<Seq<(ScriptValue, ScriptValue)>> {
    match value {
        Some(ScriptValue::Table(table)) => Some(table@),
        _ => None,
    }
}

/// The colour that a table holds: the bytes at its positions 1, 2 and 3, if
/// each of them holds one.
pub open spec fn color_parts(table: Seq<(ScriptValue, ScriptValue)>) -> Option<(u8, u8, u8)> {
    match (
        read_byte(element(table, 1)),
        read_byte(element(table, 2)),
        read_byte(element(table, 3)),
    ) {
        (Some(r), Some(g), Some(b)) => Some((r, g, b)),
        _ => None,
    }
}

/// The colour that a value is, if it is a table that holds one.
pub open spec fn read_color(value: Option<ScriptValue>) -> Option<(u8, u8, u8)> {
    match read_table(value) {
        Some(table) => color_parts(table),
        None => None,
    }
}

/// The bytes at the positions from 1 to `n` of a table, if each of them holds one.
pub open spec fn byte_run(table: Seq<(ScriptValue, ScriptValue)>, n: int) -> Option<Seq<u8>>
    decreases n,
{
    if n <= 0 {
        Some(Seq::empty())
    } else {
        match (byte_run(table, n - 1), read_byte(element(table, n))) {
            (Some(before), Some(byte)) => Some(before.push(byte)),
            _ => None,
        }
    }
}

/// The bytes that a value is, if it is a table that holds a byte at each
/// position from 1 to the number of its pairs.
pub open spec fn read_bytes(value: Option<ScriptValue>) -> Option<Seq<u8>> {
    match read_table(value) {
        Some(table) => byte_run(table, table.len() as int),
        None => None,
    }
}

/// The text under `name`, if there is one.
pub fn text_field(table: &ScriptTable, name: &str) -> (text: Option<String>)
    ensures
        text == read_text(field(table@, name@)),
{
    match get_field(table, name) {
        Some(ScriptValue::Text(text)) => Some(text.clone()),
        _ => None,
    }
}

/// The truth value under `name`, if there is one.
pub fn flag_field(table: &ScriptTable, name: &str) -> (flag: Option<bool>)
    ensures
        flag == read_flag(field(table@, name@)),
{
    match get_field(table, name) {
        Some(ScriptValue::Boolean(flag)) => Some(*flag),
        _ => None,
    }
}

fn byte_of(value: Option<&ScriptValue>) -> (byte: Option<u8>)
    ensures
        byte == read_byte(
            match value {
                Some(v) => Some(*v),
                None => None,
            },
        ),
{
    match value {
        Some(ScriptValue::Number(number)) => match number.whole {
            Some(whole) => if 0 <= whole && whole <= 255 {
                Some(whole as u8)
            } else {
                None
            },
            None => None,
        },
        _ => None,
    }
}

/// The byte under `name`, if there is one.
pub fn byte_field(table: &ScriptTable, name: &str) -> (byte: Option<u8>)
    ensures
        byte == read_byte(field(table@, name@)),
{
    byte_of(get_field(table, name))
}

/// The weight under `name`, if there is one.
pub fn weight_field(table: &ScriptTable, name: &str) -> (weight: Option<Weight>)
    ensures
        weight == read_weight(field(table@, name@)),
{
    match get_field(table, name) {
        Some(ScriptValue::Number(number)) => Some(number.value),
        _ => None,
    }
}

/// The table under `name`, if there is one.
pub fn table_field<'a>(table: &'a ScriptTable, name: &str) -> (inner: Option<&'a ScriptTable>)
    ensures
        match inner {
            Some(t) => read_table(field(table@, name@)) == Some(t@),
            None => read_table(field(table@, name@)).is_none(),
        },
{
    match get_field(table, name) {
        Some(ScriptValue::Table(inner)) => Some(inner),
        _ => None,
    }
}

/// The colour that a table holds at its positions 1, 2 and 3, if it holds one.
pub fn color_of_table(parts: &ScriptTable) -> (color: Option<(u8, u8, u8)>)
    ensures
        color == color_parts(parts@),
{
    let r = byte_of(get_element(parts, 1));
    let g = byte_of(get_element(parts, 2));
    let b = byte_of(get_element(parts, 3));
    match (r, g, b) {
        (Some(r), Some(g), Some(b)) => Some((r, g, b)),
        _ => None,
    }
}

/// The colour under `name`, if there is one.
pub fn color_field(table: &ScriptTable, name: &str) -> (color: Option<(u8, u8, u8)>)
    ensures
        color == read_color(field(table@, name@)),
{
    match table_field(table, name) {
        Some(parts) => color_of_table(parts),
        None => None,
    }
}

proof fn lemma_byte_run_stops(table: Seq<(ScriptValue, ScriptValue)>, n: int, m: int)
    requires
        0 <= n <= m,
        byte_run(table, n).is_none(),
    ensures
        byte_run(table, m).is_none(),
    decreases m - n,
{
    if n < m {
        lemma_byte_run_stops(table, n, m - 1);
    }
}

proof fn lemma_no_element_beyond(table: Seq<(ScriptValue, ScriptValue)>, position: int, from: int)
    requires
        position > i64::MAX,
        0 <= from,
    ensures
        element_from(table, position, from).is_none(),
    decreases table.len() - from,
{
    if from < table.len() {
        lemma_no_element_beyond(table, position, from + 1);
    }
}

/// The bytes under `name`, if there are such.
pub fn bytes_field(table: &ScriptTable, name: &str) -> (bytes: Option<Vec<u8>>)
    ensures
        match bytes {
            Some(b) => read_bytes(field(table@, name@)) == Some(b@),
            None => read_bytes(field(table@, name@)).is_none(),
        },
{
    match table_field(table, name) {
        Some(parts) => {
            let count = parts.len();
            if count as u64 > 0x7FFF_FFFF_FFFF_FFFF {
                proof {
                    lemma_no_element_beyond(parts@, count as int, 0);
                }
                return None;
            }
            let mut bytes: Vec<u8> = Vec::new();
            let mut position: i64 = 0;
            while (position as u64) < count as u64
                invariant
                    0 <= position <= count,
                    count == parts@.len(),
                    count <= i64::MAX,
                    read_table(field(table@, name@)) == Some(parts@),
                    byte_run(parts@, position as int) == Some(bytes@),
                decreases count - position,
            {
                position += 1;
                match byte_of(get_element(parts, position)) {
                    Some(byte) => {
                        bytes.push(byte);
                    },
                    None => {
                        proof {
                            assert(byte_run(parts@, position as int).is_none());
                            lemma_byte_run_stops(parts@, position as int, count as int);
                        }
                        return None;
                    },
                }
            }
            Some(bytes)
        },
        None => None,
    }
}

/// What a table says of a tile or of a ground.
pub open spec fn read_terrain(table: Seq<(ScriptValue, ScriptValue)>) -> (Option<bool>, Option<Weight>) {
    (read_flag(field(table, "solid"@)), read_weight(field(table, "world_gen_weight"@)))
}

/// The tile payload that a value declares, if the value is a table.
pub open spec fn read_tile(value: Option<ScriptValue>) -> Option<TileDeserialData> {
    match read_table(value) {
        Some(table) => Some(
            TileDeserialData {
                solid: read_terrain(table).0,
                world_gen_weight: read_terrain(table).1,
            },
        ),
        None => None,
    }
}

/// The ground payload that a value declares, if the value is a table.
pub open spec fn read_ground(value: Option<ScriptValue>) -> Option<GroundDeserialData> {
    match read_table(value) {
        Some(table) => Some(
            GroundDeserialData {
                solid: read_terrain(table).0,
                world_gen_weight: read_terrain(table).1,
            },
        ),
        None => None,
    }
}

/// The item payload that a value declares, if the value is a table.
pub open spec fn read_item(value: Option<ScriptValue>) -> Option<ItemDeserialData> {
    match read_table(value) {
        Some(_) => Some(ItemDeserialData {  }),
        None => None,
    }
}

/// The visual data that a value declares, if the value is a table.
pub open spec fn read_visual(value: Option<ScriptValue>) -> Option<VisualDeserData> {
    match read_table(value) {
        Some(table) => Some(
            VisualDeserData {
                name: read_text(field(table, "name"@)),
                character_left: read_text(field(table, "character_left"@)),
                character_right: read_text(field(table, "character_right"@)),
                text_color_left: read_color(field(table, "text_color_left"@)),
                text_color_right: read_color(field(table, "text_color_right"@)),
                back_color_left: read_color(field(table, "back_color_left"@)),
                back_color_right: read_color(field(table, "back_color_right"@)),
            },
        ),
        None => None,
    }
}

/// Whether a type identifier and bytes are those that a value declares for a
/// thing or a byte stream, `present` telling whether there is such a payload.
pub open spec fn is_thing_of(
    present: bool,
    type_identifier: Option<String>,
    bytes: Option<Vec<u8>>,
    value: Option<ScriptValue>,
) -> bool {
    match read_table(value) {
        Some(table) => {
            &&& present
            &&& type_identifier == read_text(field(table, "type_identifier"@))
            &&& match bytes {
                Some(b) => read_bytes(field(table, "bytes"@)) == Some(b@),
                None => read_bytes(field(table, "bytes"@)).is_none(),
            }
        },
        None => !present,
    }
}

/// Whether `declaration` is what a table declares: each part read from the
/// field of its name, and left out where that field is missing or of another
/// kind.
pub open spec fn declares(
    declaration: ModuleDeserialization,
    table: Seq<(ScriptValue, ScriptValue)>,
) -> bool {
    &&& declaration.source == read_text(field(table, "source"@))
    &&& declaration.priority == read_byte(field(table, "priority"@))
    &&& declaration.tile == read_tile(field(table, "tile"@))
    &&& declaration.ground == read_ground(field(table, "ground"@))
    &&& declaration.item == read_item(field(table, "item"@))
    &&& match declaration.visible_thing {
        Some(d) => is_thing_of(true, d.type_identifier, d.bytes, field(table, "visible_thing"@)),
        None => is_thing_of(false, None, None, field(table, "visible_thing"@)),
    }
    &&& match declaration.thing {
        Some(d) => is_thing_of(true, d.type_identifier, d.bytes, field(table, "thing"@)),
        None => is_thing_of(false, None, None, field(table, "thing"@)),
    }
    &&& match declaration.byte_stream {
        Some(d) => is_thing_of(true, d.type_identifier, d.bytes, field(table, "byte_stream"@)),
        None => is_thing_of(false, None, None, field(table, "byte_stream"@)),
    }
    &&& declaration.visual_data == read_visual(field(table, "visual_data"@))
}

/// The declaration that a table of a script holds, read by the schema of
/// declaration files.
pub fn declaration_from_script(table: &ScriptTable) -> (declaration: ModuleDeserialization)
    ensures
        declares(declaration, table@),
{
    let tile = match table_field(table, "tile") {
        Some(t) => Some(
            TileDeserialData {
                solid: flag_field(t, "solid"),
                world_gen_weight: weight_field(t, "world_gen_weight"),
            },
        ),
        None => None,
    };
    let ground = match table_field(table, "ground") {
        Some(t) => Some(
            GroundDeserialData {
                solid: flag_field(t, "solid"),
                world_gen_weight: weight_field(t, "world_gen_weight"),
            },
        ),
        None => None,
    };
    let item = match table_field(table, "item") {
        Some(_) => Some(ItemDeserialData {  }),
        None => None,
    };
    let visible_thing = match table_field(table, "visible_thing") {
        Some(t) => Some(
            VisibleThingDeserialData {
                type_identifier: text_field(t, "type_identifier"),
                bytes: bytes_field(t, "bytes"),
            },
        ),
        None => None,
    };
    let thing = match table_field(table, "thing") {
        Some(t) => Some(
            ThingDeserialData {
                type_identifier: text_field(t, "type_identifier"),
                bytes: bytes_field(t, "bytes"),
            },
        ),
        None => None,
    };
    let byte_stream = match table_field(table, "byte_stream") {
        Some(t) => Some(
            ByteStreamDeserialData {
                type_identifier: text_field(t, "type_identifier"),
                bytes: bytes_field(t, "bytes"),
            },
        ),
        None => None,
    };
    let visual_data = match table_field(table, "visual_data") {
        Some(t) => Some(
            VisualDeserData {
                name: text_field(t, "name"),
                character_left: text_field(t, "character_left"),
                character_right: text_field(t, "character_right"),
                text_color_left: color_field(t, "text_color_left"),
                text_color_right: color_field(t, "text_color_right"),
                back_color_left: color_field(t, "back_color_left"),
                back_color_right: color_field(t, "back_color_right"),
            },
        ),
        None => None,
    };
    ModuleDeserialization {
        source: text_field(table, "source"),
        priority: byte_field(table, "priority"),
        tile,
        ground,
        item,
        visible_thing,
        thing,
        byte_stream,
        visual_data,
    }
}

/// The pairs among the first `n` of a table that hold a table under a text:
/// the text and the pairs of the table under it, in the order of the table.
pub open spec fn named_tables(table: Seq<(ScriptValue, ScriptValue)>, n: int) -> Seq<
    (String, Seq<(ScriptValue, ScriptValue)>),
>
    decreases n,
{
    if n <= 0 {
        Seq::empty()
    } else {
        let before = named_tables(table, n - 1);
        match (table[n - 1].0, table[n - 1].1) {
            (ScriptValue::Text(name), ScriptValue::Table(inner)) => before.push((name, inner@)),
            _ => before,
        }
    }
}

/// Whether a list holds, name by name, what the named tables declare.
pub open spec fn are_declarations_of(
    declarations: Seq<(String, ModuleDeserialization)>,
    tables: Seq<(String, Seq<(ScriptValue, ScriptValue)>)>,
) -> bool {
    &&& declarations.len() == tables.len()
    &&& forall|k: int|
        0 <= k < tables.len() ==> (#[trigger] declarations[k]).0 == tables[k].0 && declares(
            declarations[k].1,
            tables[k].1,
        )
}

/// The declarations of a module that a script hands in: one for each table
/// that stands under a text, with that text as its name.
pub fn declarations_from_script(module: &ScriptTable) -> (declarations: Vec<
    (String, ModuleDeserialization),
>)
    ensures
        are_declarations_of(declarations@, named_tables(module@, module@.len() as int)),
{
    let mut declarations: Vec<(String, ModuleDeserialization)> = Vec::new();
    let mut i: usize = 0;
    while i < module.len()
        invariant
            i <= module@.len(),
            are_declarations_of(declarations@, named_tables(module@, i as int)),
        decreases module@.len() - i,
    {
        if let ScriptValue::Text(name) = &module[i].0 {
            if let ScriptValue::Table(inner) = &module[i].1 {
                declarations.push((name.clone(), declaration_from_script(inner)));
            }
        }
        i += 1;
    }
    declarations
}

/// Whether one pair of the scripts' game data takes the dump from `before` to
/// `after`: a table under a text adds what it declares to the module of that
/// name, and any other pair changes nothing.
pub open spec fn script_step(
    before: Seq<(String, Vec<(String, ModuleDeserialization)>)>,
    pair: (ScriptValue, ScriptValue),
    after: Seq<(String, Vec<(String, ModuleDeserialization)>)>,
) -> bool {
    match (pair.0, pair.1) {
        (ScriptValue::Text(module), ScriptValue::Table(inner)) => exists|
            declarations: Seq<(String, ModuleDeserialization)>,
        |
            #[trigger] are_declarations_of(
                declarations,
                named_tables(inner@, inner@.len() as int),
            ) && is_merge_of(before, after, module, declarations),
        _ => after == before,
    }
}

/// Whether the pairs of the scripts' game data, taken one after the other, lead
/// from the first dump of `steps` to its last.
pub open spec fn script_steps(
    steps: Seq<Seq<(String, Vec<(String, ModuleDeserialization)>)>>,
    game_data: Seq<(ScriptValue, ScriptValue)>,
    n: int,
) -> bool {
    &&& steps.len() == n + 1
    &&& forall|k: int| 0 <= k < n ==> script_step(#[trigger] steps[k], game_data[k], steps[k + 1])
}

/// Merges what scripts declare into what was collected from files. The game
/// data of the scripts holds a table of named declarations under the name of
/// each module; they are added to that module, or become a new one.
pub fn merge_script_game_data(dump: &mut DeserializationDump, game_data: &ScriptTable)
    ensures
        exists|steps: Seq<Seq<(String, Vec<(String, ModuleDeserialization)>)>>|
            #[trigger] script_steps(steps, game_data@, game_data@.len() as int) && steps[0] == old(
                dump,
            )@ && steps[game_data@.len() as int] == final(dump)@,
{
    let ghost mut steps = seq![dump@];
    let mut i: usize = 0;
    while i < game_data.len()
        invariant
            i <= game_data@.len(),
            script_steps(steps, game_data@, i as int),
            steps[0] == old(dump)@,
            steps[i as int] == dump@,
        decreases game_data@.len() - i,
    {
        let ghost before = dump@;
        if let ScriptValue::Text(module) = &game_data[i].0 {
            if let ScriptValue::Table(inner) = &game_data[i].1 {
                let declarations = declarations_from_script(inner);
                let ghost added = declarations@;
                merge_module_declarations(dump, module.clone(), declarations);
                assert(are_declarations_of(added, named_tables(inner@, inner@.len() as int))
                    && is_merge_of(before, dump@, *module, added));
            }
        }
        proof {
            assert(script_step(before, game_data@[i as int], dump@));
            let earlier = steps;
            steps = steps.push(dump@);
            assert forall|k: int| 0 <= k < i + 1 implies script_step(
                #[trigger] steps[k],
                game_data@[k],
                steps[k + 1],
            ) by {
                if k < i {
                    assert(steps[k] == earlier[k]);
                    assert(steps[k + 1] == earlier[k + 1]);
                }
            }
        }
        i += 1;
    }
}

/// The 16 bit number that a value is, if it is a whole number from 0 to 65535.
pub open spec fn read_u16(value: Option<ScriptValue>) -> Option<u16> {
    match value {
        Some(ScriptValue::Number(number)) => match number.whole {
            Some(whole) => if 0 <= whole <= 65535 {
                Some(whole as u16)
            } else {
                None
            },
            None => None,
        },
        _ => None,
    }
}

/// The 16 bit number under `name`, if there is one.
pub fn u16_field(table: &ScriptTable, name: &str) -> (number: Option<u16>)
    ensures
        number == read_u16(field(table@, name@)),
{
    match get_field(table, name) {
        Some(ScriptValue::Number(number)) => match number.whole {
            Some(whole) => if 0 <= whole && whole <= 65535 {
                Some(whole as u16)
            } else {
                None
            },
            None => None,
        },
        _ => None,
    }
}

/// Whether a key is a position from 1 to `length`.
pub open spec fn is_within(key: ScriptValue, length: int) -> bool {
    match key {
        ScriptValue::Number(number) => match number.whole {
            Some(whole) => 1 <= whole <= length,
            None => false,
        },
        _ => false,
    }
}

/// Whether each key of a table is a position from 1 to `length`.
pub open spec fn keys_within(table: Seq<(ScriptValue, ScriptValue)>, length: int) -> bool {
    forall|i: int| 0 <= i < table.len() ==> is_within((#[trigger] table[i]).0, length)
}

/// Whether each position from 1 to `length` has a value in a table.
pub open spec fn positions_filled(table: Seq<(ScriptValue, ScriptValue)>, length: int) -> bool {
    forall|position: int|
        1 <= position <= length ==> (#[trigger] element(table, position)).is_some()
}

/// Whether a table is an array of `length` values: each of its keys is a
/// position from 1 to `length`, and each of these positions has a value.
pub open spec fn is_array(table: Seq<(ScriptValue, ScriptValue)>, length: int) -> bool {
    keys_within(table, length) && positions_filled(table, length)
}

fn keys_are_positions(table: &ScriptTable, length: usize) -> (all: bool)
    ensures
        all == keys_within(table@, length as int),
{
    let mut i: usize = 0;
    while i < table.len()
        invariant
            i <= table@.len(),
            forall|j: int| 0 <= j < i ==> is_within((#[trigger] table@[j]).0, length as int),
        decreases table@.len() - i,
    {
        let inside = match &table[i].0 {
            ScriptValue::Number(number) => match number.whole {
                Some(whole) => 1 <= whole && (whole as u64) <= length as u64,
                None => false,
            },
            _ => false,
        };
        if !inside {
            assert(!is_within(table@[i as int].0, length as int));
            return false;
        }
        i += 1;
    }
    true
}

/// The values of a table that is an array of `length` values, in the order of
/// their positions; nothing for a table that is no such array.
pub fn array_values<'a>(table: &'a ScriptTable, length: usize) -> (values: Option<
    Vec<&'a ScriptValue>,
>)
    ensures
        match values {
            Some(v) => {
                &&& is_array(table@, length as int)
                &&& v@.len() == length
                &&& forall|k: int| 0 <= k < length ==> element(table@, k + 1) == Some(*#[trigger] v@[k])
            },
            None => !is_array(table@, length as int),
        },
{
    if !keys_are_positions(table, length) {
        return None;
    }
    if length as u64 > 0x7FFF_FFFF_FFFF_FFFF {
        proof {
            lemma_no_element_beyond(table@, length as int, 0);
            assert(element(table@, length as int).is_none());
        }
        return None;
    }
    let mut values: Vec<&'a ScriptValue> = Vec::new();
    let mut position: i64 = 0;
    while (position as u64) < length as u64
        invariant
            0 <= position <= length,
            length <= i64::MAX,
            keys_within(table@, length as int),
            values@.len() == position,
            forall|k: int| 0 <= k < position ==> element(table@, k + 1) == Some(*#[trigger] values@[k]),
        decreases length - position,
    {
        position += 1;
        match get_element(table, position) {
            Some(value) => {
                values.push(value);
            },
            None => {
                assert(element(table@, position as int).is_none());
                return None;
            },
        }
    }
    proof {
        assert forall|p: int| 1 <= p <= length implies (#[trigger] element(table@, p)).is_some() by {
            assert(element(table@, (p - 1) + 1) == Some(*values@[p - 1]));
        }
    }
    Some(values)
}

} // verus!
