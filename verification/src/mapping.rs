//! Mapping time: the resolved entries are joined with their visual data, given
//! ids and gathered into the registry.

use vstd::prelude::*;
use vstd::string::{StrSliceExecFns, StringExecFns};
use std::collections::HashMap;
use crate::display::{ColorDisplay, ColorDisplayBuilder, TextDisplay, TextDisplayBuilder};
use crate::ground::GroundType;
use crate::identifiers::{
    IdentifierMap, identifier_pairs, bind, identifier_map_new, identifier_map_insert,
};
use crate::item::ItemType;
use crate::module_loading::{
    DataCategory, Deserialization, DeserializationDump, PreMapDump, PreMapIdentifier,
    flatten_deserialized_dump, flattened, UnmappedData, VisualDeserData, TileDeserialData,
    GroundDeserialData, Weight,
};
use crate::resolve::{filter_pre_map_dump, resolved};
use crate::tile::{TileType, TileTypeView};

verus! {

broadcast use vstd::std_specs::hash::group_hash_axioms;

/// The types of one category, each under its id.
pub type MappedGameData<T> = HashMap<u16, T>;

/// The types of things that are shown on the map.
#[derive(Debug)]
pub struct VisibleThingType {
    pub type_identifier: String,
    pub identifier: u16,
    pub text_display: TextDisplay,
    pub color_display: ColorDisplay,
}

/// A visible thing type with its type identifier as characters.
pub struct VisibleThingTypeView {
    pub type_identifier: Seq<char>,
    pub identifier: u16,
    pub text_display: TextDisplay,
    pub color_display: ColorDisplay,
}

impl View for VisibleThingType {
    type V = VisibleThingTypeView;

    open spec fn view(&self) -> VisibleThingTypeView {
        VisibleThingTypeView {
            type_identifier: self.type_identifier@,
            identifier: self.identifier,
            text_display: self.text_display,
            color_display: self.color_display,
        }
    }
}

/// The types of things that are not shown.
#[derive(Debug)]
pub struct ThingType {
    pub type_identifier: String,
    pub identifier: u16,
}

/// A thing type with its type identifier as characters.
pub struct ThingTypeView {
    pub type_identifier: Seq<char>,
    pub identifier: u16,
}

impl View for ThingType {
    type V = ThingTypeView;

    open spec fn view(&self) -> ThingTypeView {
        ThingTypeView { type_identifier: self.type_identifier@, identifier: self.identifier }
    }
}

/// A registered stream of bytes.
#[derive(Debug)]
pub struct ByteStream {
    pub identifier: u16,
    pub bytes: Vec<u8>,
}

/// A byte stream with its bytes as a sequence.
pub struct ByteStreamView {
    pub identifier: u16,
    pub bytes: Seq<u8>,
}

impl View for ByteStream {
    type V = ByteStreamView;

    open spec fn view(&self) -> ByteStreamView {
        ByteStreamView { identifier: self.identifier, bytes: self.bytes@ }
    }
}

/// The types of every category, each under its id.
#[derive(Debug)]
pub struct MappedGameDatas {
    pub tile_types: MappedGameData<TileType>,
    pub ground_types: MappedGameData<GroundType>,
    pub item_types: MappedGameData<ItemType>,
    pub visible_thing_types: MappedGameData<VisibleThingType>,
    pub thing_types: MappedGameData<ThingType>,
    pub byte_streams: MappedGameData<ByteStream>,
}

/// The lookups between names and ids, one for each category.
#[derive(Debug)]
pub struct IdentifierMaps {
    pub tile_types: IdentifierMap,
    pub ground_types: IdentifierMap,
    pub item_types: IdentifierMap,
    pub visible_thing_types: IdentifierMap,
    pub thing_types: IdentifierMap,
    pub byte_streams: IdentifierMap,
}

/// The registry: the types of every category and the names of their ids.
#[derive(Debug)]
pub struct GameDataDump {
    pub game_data: MappedGameDatas,
    pub identifiers: IdentifierMaps,
}

/// Why an entry did not reach the registry.
#[derive(Clone, Copy, Debug, PartialEq, Eq, Structural)]
pub enum LoadFailure {
    /// The entry is shown on the map, and nothing of its source and name says how.
    MissingVisualData,
    /// The entry lacks the field that its category cannot do without.
    MissingRequiredField,
    /// Every id of the entry's category was given out before its turn came.
    OutOfIdentifiers,
}

/// An entry that was left out of the registry, and why.
#[derive(Debug)]
pub struct LoadDiagnostic {
    pub failure: LoadFailure,
    pub identifier: PreMapIdentifier,
}

/// The number of ids that a category has.
pub const ID_LIMIT: usize = 65536;

/// Whether an entry says how the content of `identifier` is shown: it is visual
/// data of the same source and name.
pub open spec fn is_visual_for(entry: UnmappedData, identifier: PreMapIdentifier) -> bool {
    entry.identifier.data_type == DataCategory::VisualData && entry.identifier.source@
        == identifier.source@ && entry.identifier.name@ == identifier.name@
}

/// The last place among the first `n` that holds visual data for `identifier`.
pub open spec fn visual_index(
    entries: Seq<UnmappedData>,
    identifier: PreMapIdentifier,
    n: int,
) -> Option<int>
    decreases n,
{
    if n <= 0 {
        None
    } else if is_visual_for(entries[n - 1], identifier) {
        Some(n - 1)
    } else {
        visual_index(entries, identifier, n - 1)
    }
}

/// The visual data that is joined to `identifier`: the payload of the last entry
/// that is visual data of its source and name.
pub open spec fn visual_of<'a>(
    entries: Seq<UnmappedData<'a>>,
    identifier: PreMapIdentifier,
) -> Option<&'a VisualDeserData> {
    match visual_index(entries, identifier, entries.len() as int) {
        Some(i) => match entries[i].data {
            Deserialization::VisualData(visual) => Some(visual),
            _ => None,
        },
        None => None,
    }
}

/// Looks up the visual data of the same source and name as `identifier`.
pub fn find_visual_data<'a>(
    filtered_map_dump: &PreMapDump<'a>,
    identifier: &PreMapIdentifier,
) -> (visual: Option<&'a VisualDeserData>)
    ensures
        visual == visual_of(filtered_map_dump@, *identifier),
{
    let mut i: usize = filtered_map_dump.len();
    while i > 0
        invariant
            i <= filtered_map_dump@.len(),
            visual_index(filtered_map_dump@, *identifier, filtered_map_dump@.len() as int)
                == visual_index(filtered_map_dump@, *identifier, i as int),
        decreases i,
    {
        i -= 1;
        let ident = &filtered_map_dump[i].identifier;
        if ident.data_type == DataCategory::VisualData && ident.source == identifier.source
            && ident.name == identifier.name {
            return match filtered_map_dump[i].data {
                Deserialization::VisualData(visual) => Some(visual),
                _ => None,
            };
        }
    }
    None
}

/// The character that a declared string stands for: its first one, and a space
/// where nothing is declared or the string is empty.
pub open spec fn shown_character(declared: Option<String>) -> char {
    match declared {
        Some(s) => if s@.len() > 0 {
            s@[0]
        } else {
            ' '
        },
        None => ' ',
    }
}

/// The two characters of visual data.
pub open spec fn text_of(visual: &VisualDeserData) -> TextDisplay {
    TextDisplay {
        character_left: Some(shown_character(visual.character_left)),
        character_right: Some(shown_character(visual.character_right)),
    }
}

/// The four colours of visual data, each left unset where none is declared.
pub open spec fn color_of(visual: &VisualDeserData) -> ColorDisplay {
    ColorDisplay {
        text_color_left: visual.text_color_left,
        back_color_left: visual.back_color_left,
        text_color_right: visual.text_color_right,
        back_color_right: visual.back_color_right,
    }
}

/// The display name of visual data, empty where none is declared.
pub open spec fn display_name_of(visual: &VisualDeserData) -> Seq<char> {
    match visual.name {
        Some(name) => name@,
        None => Seq::empty(),
    }
}

fn first_character(declared: &Option<String>) -> (c: char)
    ensures
        c == shown_character(*declared),
{
    match declared {
        Some(s) => {
            if s.as_str().unicode_len() > 0 {
                s.as_str().get_char(0)
            } else {
                ' '
            }
        },
        None => ' ',
    }
}

/// The characters, the colours and the display name that visual data declares.
pub fn text_and_color_from_deser(visual_deser: &VisualDeserData) -> (shown: (
    TextDisplay,
    ColorDisplay,
    String,
))
    ensures
        shown.0 == text_of(visual_deser),
        shown.1 == color_of(visual_deser),
        shown.2@ == display_name_of(visual_deser),
{
    let mut text = TextDisplayBuilder::new();
    text.character_left(first_character(&visual_deser.character_left));
    text.character_right(first_character(&visual_deser.character_right));
    let text = text.finalize();

    let mut color = ColorDisplayBuilder::new();
    if let Some(tl) = visual_deser.text_color_left {
        color.text_color_left(tl);
    }
    if let Some(tr) = visual_deser.text_color_right {
        color.text_color_right(tr);
    }
    if let Some(bl) = visual_deser.back_color_left {
        color.back_color_left(bl);
    }
    if let Some(br) = visual_deser.back_color_right {
        color.back_color_right(br);
    }
    let color = color.finalize();

    let name = match &visual_deser.name {
        Some(name) => name.clone(),
        None => String::new(),
    };

    (text, color, name)
}

/// What keeps the entry at `i` out of the registry, whatever ids are left: a
/// shown entry without visual data, or an entry without the field that its
/// category needs. Visual data is kept out by nothing: it is not registered at all.
pub open spec fn obstacle(entries: Seq<UnmappedData>, i: int) -> Option<LoadFailure> {
    let unshown = visual_of(entries, entries[i].identifier).is_none();
    match entries[i].data {
        Deserialization::Tile(_) | Deserialization::Ground(_) | Deserialization::Item(_) => if unshown {
            Some(LoadFailure::MissingVisualData)
        } else {
            None
        },
        Deserialization::VisibleThing(data) => if unshown {
            Some(LoadFailure::MissingVisualData)
        } else if data.type_identifier.is_none() {
            Some(LoadFailure::MissingRequiredField)
        } else {
            None
        },
        Deserialization::Thing(data) => if data.type_identifier.is_none() {
            Some(LoadFailure::MissingRequiredField)
        } else {
            None
        },
        Deserialization::ByteStream(data) => if data.bytes.is_none() {
            Some(LoadFailure::MissingRequiredField)
        } else {
            None
        },
        Deserialization::VisualData(_) => None,
    }
}

/// Whether the entry at `i` becomes a type of `category` when `taken` ids of that
/// category are in use: it has a payload of that category, nothing keeps it out,
/// and an id is left.
pub open spec fn admits(
    entries: Seq<UnmappedData>,
    category: DataCategory,
    i: int,
    taken: nat,
) -> bool {
    entries[i].data.category() == category && category != DataCategory::VisualData && obstacle(
        entries,
        i,
    ).is_none() && taken < ID_LIMIT
}

/// The places from `n` on whose entries become types of `category`, in the order
/// in which they get their ids: from the end of the list to its start. The entry
/// at the `k`-th of these places gets the id `k`.
pub open spec fn accepted(entries: Seq<UnmappedData>, category: DataCategory, n: int) -> Seq<int>
    decreases entries.len() - n,
{
    if n < 0 || n >= entries.len() {
        Seq::empty()
    } else {
        let earlier = accepted(entries, category, n + 1);
        if admits(entries, category, n, earlier.len()) {
            earlier.push(n)
        } else {
            earlier
        }
    }
}

/// Why the entry at `i` is left out of the registry, if it is.
pub open spec fn failure_at(entries: Seq<UnmappedData>, i: int) -> Option<LoadFailure> {
    let category = entries[i].data.category();
    if category == DataCategory::VisualData {
        None
    } else if obstacle(entries, i).is_some() {
        obstacle(entries, i)
    } else if accepted(entries, category, i + 1).len() >= ID_LIMIT {
        Some(LoadFailure::OutOfIdentifiers)
    } else {
        None
    }
}

/// The entries from `n` on that are left out, each with the reason, in the order
/// in which the entries are visited.
pub open spec fn failures(entries: Seq<UnmappedData>, n: int) -> Seq<LoadDiagnostic>
    decreases entries.len() - n,
{
    if n < 0 || n >= entries.len() {
        Seq::empty()
    } else {
        let earlier = failures(entries, n + 1);
        match failure_at(entries, n) {
            Some(failure) => earlier.push(
                LoadDiagnostic { failure, identifier: entries[n].identifier },
            ),
            None => earlier,
        }
    }
}

/// The name under which a type is found: source and name with a colon between.
pub open spec fn type_key(identifier: PreMapIdentifier) -> Seq<char> {
    identifier.source@ + seq![':'] + identifier.name@
}

/// The pairs of names and ids after the first `k` of the accepted places have
/// been bound, each to its rank, one after the other.
pub open spec fn names_bound(entries: Seq<UnmappedData>, places: Seq<int>, k: int) -> Set<
    (Seq<char>, u16),
>
    decreases k,
{
    if k <= 0 {
        Set::empty()
    } else {
        bind(
            names_bound(entries, places, k - 1),
            type_key(entries[places[k - 1]].identifier),
            (k - 1) as u16,
        )
    }
}

/// The ids below `n`.
pub open spec fn ids_below(n: nat) -> Set<u16> {
    Set::new(|id: u16| (id as nat) < n)
}

/// Whether a payload lets its entry be solid: it is, unless the payload says no.
pub open spec fn solid_or_default(solid: Option<bool>) -> bool {
    match solid {
        Some(solid) => solid,
        None => true,
    }
}

/// The declared weight, and zero where none is declared.
pub open spec fn weight_or_default(weight: Option<Weight>) -> Weight {
    match weight {
        Some(weight) => weight,
        None => Weight { bits: 0 },
    }
}

/// The tile type that the entry at `i` becomes under `id`.
pub open spec fn tile_record(entries: Seq<UnmappedData>, i: int, id: u16) -> TileTypeView {
    let visual = visual_of(entries, entries[i].identifier).unwrap();
    match entries[i].data {
        Deserialization::Tile(data) => TileTypeView {
            identifier: id,
            name: display_name_of(visual),
            text_display: text_of(visual),
            color_display: color_of(visual),
            solid: solid_or_default(data.solid),
            world_gen_weight: weight_or_default(data.world_gen_weight),
        },
        _ => arbitrary(),
    }
}

/// The ground type that the entry at `i` becomes under `id`.
pub open spec fn ground_record(entries: Seq<UnmappedData>, i: int, id: u16) -> GroundType {
    let visual = visual_of(entries, entries[i].identifier).unwrap();
    match entries[i].data {
        Deserialization::Ground(data) => GroundType {
            identifier: id,
            text_display: text_of(visual),
            color_display: color_of(visual),
            solid: solid_or_default(data.solid),
            world_gen_weight: weight_or_default(data.world_gen_weight),
        },
        _ => arbitrary(),
    }
}

/// The item type that the entry at `i` becomes under `id`.
pub open spec fn item_record(entries: Seq<UnmappedData>, i: int, id: u16) -> ItemType {
    let visual = visual_of(entries, entries[i].identifier).unwrap();
    ItemType { identifier: id, text_display: text_of(visual), color_display: color_of(visual) }
}

/// The visible thing type that the entry at `i` becomes under `id`.
pub open spec fn visible_thing_record(
    entries: Seq<UnmappedData>,
    i: int,
    id: u16,
) -> VisibleThingTypeView {
    let visual = visual_of(entries, entries[i].identifier).unwrap();
    match entries[i].data {
        Deserialization::VisibleThing(data) => VisibleThingTypeView {
            type_identifier: data.type_identifier.unwrap()@,
            identifier: id,
            text_display: text_of(visual),
            color_display: color_of(visual),
        },
        _ => arbitrary(),
    }
}

/// The thing type that the entry at `i` becomes under `id`.
pub open spec fn thing_record(entries: Seq<UnmappedData>, i: int, id: u16) -> ThingTypeView {
    match entries[i].data {
        Deserialization::Thing(data) => ThingTypeView {
            type_identifier: data.type_identifier.unwrap()@,
            identifier: id,
        },
        _ => arbitrary(),
    }
}

/// The byte stream that the entry at `i` becomes under `id`.
pub open spec fn byte_stream_record(entries: Seq<UnmappedData>, i: int, id: u16) -> ByteStreamView {
    match entries[i].data {
        Deserialization::ByteStream(data) => ByteStreamView {
            identifier: id,
            bytes: data.bytes.unwrap()@,
        },
        _ => arbitrary(),
    }
}

/// Whether `types` holds the tile types of the entries at `places`, each under
/// its rank, and nothing else.
pub open spec fn tiles_mapped(
    types: Map<u16, TileType>,
    entries: Seq<UnmappedData>,
    places: Seq<int>,
) -> bool {
    &&& types.dom() =~= ids_below(places.len())
    &&& forall|id: u16|
        (id as int) < places.len() ==> (#[trigger] types[id])@ == tile_record(
            entries,
            places[id as int],
            id,
        )
}

/// Whether `types` holds the ground types of the entries at `places`, each under
/// its rank, and nothing else.
pub open spec fn grounds_mapped(
    types: Map<u16, GroundType>,
    entries: Seq<UnmappedData>,
    places: Seq<int>,
) -> bool {
    &&& types.dom() =~= ids_below(places.len())
    &&& forall|id: u16|
        (id as int) < places.len() ==> #[trigger] types[id] == ground_record(
            entries,
            places[id as int],
            id,
        )
}

/// Whether `types` holds the item types of the entries at `places`, each under
/// its rank, and nothing else.
pub open spec fn items_mapped(
    types: Map<u16, ItemType>,
    entries: Seq<UnmappedData>,
    places: Seq<int>,
) -> bool {
    &&& types.dom() =~= ids_below(places.len())
    &&& forall|id: u16|
        (id as int) < places.len() ==> #[trigger] types[id] == item_record(
            entries,
            places[id as int],
            id,
        )
}

/// Whether `types` holds the visible thing types of the entries at `places`, each
/// under its rank, and nothing else.
pub open spec fn visible_things_mapped(
    types: Map<u16, VisibleThingType>,
    entries: Seq<UnmappedData>,
    places: Seq<int>,
) -> bool {
    &&& types.dom() =~= ids_below(places.len())
    &&& forall|id: u16|
        (id as int) < places.len() ==> (#[trigger] types[id])@ == visible_thing_record(
            entries,
            places[id as int],
            id,
        )
}

/// Whether `types` holds the thing types of the entries at `places`, each under
/// its rank, and nothing else.
pub open spec fn things_mapped(
    types: Map<u16, ThingType>,
    entries: Seq<UnmappedData>,
    places: Seq<int>,
) -> bool {
    &&& types.dom() =~= ids_below(places.len())
    &&& forall|id: u16|
        (id as int) < places.len() ==> (#[trigger] types[id])@ == thing_record(
            entries,
            places[id as int],
            id,
        )
}

/// Whether `types` holds the byte streams of the entries at `places`, each under
/// its rank, and nothing else.
pub open spec fn byte_streams_mapped(
    types: Map<u16, ByteStream>,
    entries: Seq<UnmappedData>,
    places: Seq<int>,
) -> bool {
    &&& types.dom() =~= ids_below(places.len())
    &&& forall|id: u16|
        (id as int) < places.len() ==> (#[trigger] types[id])@ == byte_stream_record(
            entries,
            places[id as int],
            id,
        )
}

/// Whether a lookup holds the names of the entries at `places`, each bound to
/// its rank in turn.
pub open spec fn names_mapped(
    names: IdentifierMap,
    entries: Seq<UnmappedData>,
    places: Seq<int>,
) -> bool {
    identifier_pairs(names) == names_bound(entries, places, places.len() as int)
}

impl GameDataDump {
    /// The pairs of names and ids of a category. Visual data has none.
    pub open spec fn names(self, category: DataCategory) -> Set<(Seq<char>, u16)> {
        match category {
            DataCategory::Tile => identifier_pairs(self.identifiers.tile_types),
            DataCategory::Ground => identifier_pairs(self.identifiers.ground_types),
            DataCategory::Item => identifier_pairs(self.identifiers.item_types),
            DataCategory::VisibleThing => identifier_pairs(self.identifiers.visible_thing_types),
            DataCategory::Thing => identifier_pairs(self.identifiers.thing_types),
            DataCategory::ByteStream => identifier_pairs(self.identifiers.byte_streams),
            DataCategory::VisualData => Set::empty(),
        }
    }

    /// The ids of a category that have a type. Visual data has none.
    pub open spec fn ids(self, category: DataCategory) -> Set<u16> {
        match category {
            DataCategory::Tile => self.game_data.tile_types@.dom(),
            DataCategory::Ground => self.game_data.ground_types@.dom(),
            DataCategory::Item => self.game_data.item_types@.dom(),
            DataCategory::VisibleThing => self.game_data.visible_thing_types@.dom(),
            DataCategory::Thing => self.game_data.thing_types@.dom(),
            DataCategory::ByteStream => self.game_data.byte_streams@.dom(),
            DataCategory::VisualData => Set::empty(),
        }
    }
}

/// Whether `dump` is the registry of `entries`: in each category the types of
/// the accepted entries under the ids 0, 1, 2 and so on, in the order in which
/// the entries are visited, and their names bound to those ids.
pub open spec fn is_mapping_of(entries: Seq<UnmappedData>, dump: GameDataDump) -> bool {
    &&& tiles_mapped(dump.game_data.tile_types@, entries, accepted(entries, DataCategory::Tile, 0))
    &&& grounds_mapped(
        dump.game_data.ground_types@,
        entries,
        accepted(entries, DataCategory::Ground, 0),
    )
    &&& items_mapped(dump.game_data.item_types@, entries, accepted(entries, DataCategory::Item, 0))
    &&& visible_things_mapped(
        dump.game_data.visible_thing_types@,
        entries,
        accepted(entries, DataCategory::VisibleThing, 0),
    )
    &&& things_mapped(
        dump.game_data.thing_types@,
        entries,
        accepted(entries, DataCategory::Thing, 0),
    )
    &&& byte_streams_mapped(
        dump.game_data.byte_streams@,
        entries,
        accepted(entries, DataCategory::ByteStream, 0),
    )
    &&& names_mapped(dump.identifiers.tile_types, entries, accepted(entries, DataCategory::Tile, 0))
    &&& names_mapped(
        dump.identifiers.ground_types,
        entries,
        accepted(entries, DataCategory::Ground, 0),
    )
    &&& names_mapped(dump.identifiers.item_types, entries, accepted(entries, DataCategory::Item, 0))
    &&& names_mapped(
        dump.identifiers.visible_thing_types,
        entries,
        accepted(entries, DataCategory::VisibleThing, 0),
    )
    &&& names_mapped(
        dump.identifiers.thing_types,
        entries,
        accepted(entries, DataCategory::Thing, 0),
    )
    &&& names_mapped(
        dump.identifiers.byte_streams,
        entries,
        accepted(entries, DataCategory::ByteStream, 0),
    )
}

/// The name under which the type of `identifier` is found.
pub fn type_key_of(identifier: &PreMapIdentifier) -> (key: String)
    ensures
        key@ == type_key(*identifier),
{
    proof {
        reveal_strlit(":");
    }
    let mut key = identifier.source.clone();
    key.append(":");
    key.append(identifier.name.as_str());
    assert(key@ =~= type_key(*identifier));
    key
}

proof fn lemma_names_bound_prefix(
    entries: Seq<UnmappedData>,
    places: Seq<int>,
    next: int,
    k: int,
)
    requires
        0 <= k <= places.len(),
    ensures
        names_bound(entries, places.push(next), k) == names_bound(entries, places, k),
    decreases k,
{
    if k > 0 {
        lemma_names_bound_prefix(entries, places, next, k - 1);
    }
}

fn register_name(
    names: &mut IdentifierMap,
    entries: &PreMapDump,
    i: usize,
    id: u16,
    Ghost(places): Ghost<Seq<int>>,
)
    requires
        i < entries@.len(),
        id as int == places.len(),
        names_mapped(*old(names), entries@, places),
    ensures
        names_mapped(*final(names), entries@, places.push(i as int)),
{
    proof {
        lemma_names_bound_prefix(entries@, places, i as int, places.len() as int);
    }
    identifier_map_insert(names, type_key_of(&entries[i].identifier), id);
}

fn admit_tile(
    types: &mut MappedGameData<TileType>,
    entries: &PreMapDump,
    i: usize,
    id: u16,
    data: &TileDeserialData,
    visual: &VisualDeserData,
    Ghost(places): Ghost<Seq<int>>,
)
    requires
        i < entries@.len(),
        entries@[i as int].data == Deserialization::Tile(data),
        visual_of(entries@, entries@[i as int].identifier) == Some(visual),
        id as int == places.len(),
        tiles_mapped(old(types)@, entries@, places),
    ensures
        tiles_mapped(final(types)@, entries@, places.push(i as int)),
{
    let shown = text_and_color_from_deser(visual);
    types.insert(
        id,
        TileType {
            identifier: id,
            name: shown.2,
            text_display: shown.0,
            color_display: shown.1,
            solid: match data.solid {
                Some(solid) => solid,
                None => true,
            },
            world_gen_weight: match data.world_gen_weight {
                Some(weight) => weight,
                None => Weight::zero(),
            },
        },
    );
}

fn admit_ground(
    types: &mut MappedGameData<GroundType>,
    entries: &PreMapDump,
    i: usize,
    id: u16,
    data: &GroundDeserialData,
    visual: &VisualDeserData,
    Ghost(places): Ghost<Seq<int>>,
)
    requires
        i < entries@.len(),
        entries@[i as int].data == Deserialization::Ground(data),
        visual_of(entries@, entries@[i as int].identifier) == Some(visual),
        id as int == places.len(),
        grounds_mapped(old(types)@, entries@, places),
    ensures
        grounds_mapped(final(types)@, entries@, places.push(i as int)),
{
    let shown = text_and_color_from_deser(visual);
    types.insert(
        id,
        GroundType {
            identifier: id,
            text_display: shown.0,
            color_display: shown.1,
            solid: match data.solid {
                Some(solid) => solid,
                None => true,
            },
            world_gen_weight: match data.world_gen_weight {
                Some(weight) => weight,
                None => Weight::zero(),
            },
        },
    );
}

fn admit_item(
    types: &mut MappedGameData<ItemType>,
    entries: &PreMapDump,
    i: usize,
    id: u16,
    visual: &VisualDeserData,
    Ghost(places): Ghost<Seq<int>>,
)
    requires
        i < entries@.len(),
        visual_of(entries@, entries@[i as int].identifier) == Some(visual),
        id as int == places.len(),
        items_mapped(old(types)@, entries@, places),
    ensures
        items_mapped(final(types)@, entries@, places.push(i as int)),
{
    let shown = text_and_color_from_deser(visual);
    types.insert(id, ItemType { identifier: id, text_display: shown.0, color_display: shown.1 });
}

fn admit_visible_thing(
    types: &mut MappedGameData<VisibleThingType>,
    entries: &PreMapDump,
    i: usize,
    id: u16,
    type_identifier: &String,
    visual: &VisualDeserData,
    Ghost(places): Ghost<Seq<int>>,
)
    requires
        i < entries@.len(),
        match entries@[i as int].data {
            Deserialization::VisibleThing(data) => data.type_identifier == Some(*type_identifier),
            _ => false,
        },
        visual_of(entries@, entries@[i as int].identifier) == Some(visual),
        id as int == places.len(),
        visible_things_mapped(old(types)@, entries@, places),
    ensures
        visible_things_mapped(final(types)@, entries@, places.push(i as int)),
{
    let shown = text_and_color_from_deser(visual);
    types.insert(
        id,
        VisibleThingType {
            type_identifier: type_identifier.clone(),
            identifier: id,
            text_display: shown.0,
            color_display: shown.1,
        },
    );
}

fn admit_thing(
    types: &mut MappedGameData<ThingType>,
    entries: &PreMapDump,
    i: usize,
    id: u16,
    type_identifier: &String,
    Ghost(places): Ghost<Seq<int>>,
)
    requires
        i < entries@.len(),
        match entries@[i as int].data {
            Deserialization::Thing(data) => data.type_identifier == Some(*type_identifier),
            _ => false,
        },
        id as int == places.len(),
        things_mapped(old(types)@, entries@, places),
    ensures
        things_mapped(final(types)@, entries@, places.push(i as int)),
{
    types.insert(id, ThingType { type_identifier: type_identifier.clone(), identifier: id });
}

fn admit_byte_stream(
    types: &mut MappedGameData<ByteStream>,
    entries: &PreMapDump,
    i: usize,
    id: u16,
    bytes: &Vec<u8>,
    Ghost(places): Ghost<Seq<int>>,
)
    requires
        i < entries@.len(),
        match entries@[i as int].data {
            Deserialization::ByteStream(data) => data.bytes == Some(*bytes),
            _ => false,
        },
        id as int == places.len(),
        byte_streams_mapped(old(types)@, entries@, places),
    ensures
        byte_streams_mapped(final(types)@, entries@, places.push(i as int)),
{
    let copy = bytes.clone();
    assert(copy@ =~= bytes@);
    types.insert(id, ByteStream { identifier: id, bytes: copy });
}

fn report(diagnostics: &mut Vec<LoadDiagnostic>, failure: LoadFailure, identifier: &PreMapIdentifier)
    ensures
        final(diagnostics)@ == old(diagnostics)@.push(
            LoadDiagnostic { failure, identifier: *identifier },
        ),
{
    diagnostics.push(LoadDiagnostic { failure, identifier: identifier.duplicate() });
}

/// Builds the registry of a list of entries. The entries are visited from the
/// last to the first. A tile, a ground, an item or a visible thing needs visual
/// data of its source and name; a visible thing and a thing need a type
/// identifier, a byte stream its bytes. An entry that has what it needs gets the
/// next id of its category, counted from 0, and its name is bound to that id. An
/// entry that lacks something, or finds no id left, is reported and left out.
pub fn filtered_pre_map_to_map(filtered_map_dump: &PreMapDump) -> (mapped: (
    GameDataDump,
    Vec<LoadDiagnostic>,
))
    ensures
        is_mapping_of(filtered_map_dump@, mapped.0),
        mapped.1@ == failures(filtered_map_dump@, 0),
{
    let mut tile_type_map: MappedGameData<TileType> = HashMap::new();
    let mut ground_type_map: MappedGameData<GroundType> = HashMap::new();
    let mut item_type_map: MappedGameData<ItemType> = HashMap::new();
    let mut visible_thing_type_map: MappedGameData<VisibleThingType> = HashMap::new();
    let mut thing_type_map: MappedGameData<ThingType> = HashMap::new();
    let mut byte_stream_map: MappedGameData<ByteStream> = HashMap::new();

    let mut tile_type_identifiers = identifier_map_new();
    let mut ground_type_identifiers = identifier_map_new();
    let mut item_type_identifiers = identifier_map_new();
    let mut visible_thing_type_identifiers = identifier_map_new();
    let mut thing_type_identifiers = identifier_map_new();
    let mut byte_stream_identifiers = identifier_map_new();

    let mut next_tile: usize = 0;
    let mut next_ground: usize = 0;
    let mut next_item: usize = 0;
    let mut next_visible_thing: usize = 0;
    let mut next_thing: usize = 0;
    let mut next_byte_stream: usize = 0;

    let mut diagnostics: Vec<LoadDiagnostic> = Vec::new();

    let ghost entries = filtered_map_dump@;
    let mut i: usize = filtered_map_dump.len();
    while i > 0
        invariant
            entries == filtered_map_dump@,
            i <= entries.len(),
            next_tile == accepted(entries, DataCategory::Tile, i as int).len(),
            next_ground == accepted(entries, DataCategory::Ground, i as int).len(),
            next_item == accepted(entries, DataCategory::Item, i as int).len(),
            next_visible_thing == accepted(entries, DataCategory::VisibleThing, i as int).len(),
            next_thing == accepted(entries, DataCategory::Thing, i as int).len(),
            next_byte_stream == accepted(entries, DataCategory::ByteStream, i as int).len(),
            next_tile <= ID_LIMIT,
            next_ground <= ID_LIMIT,
            next_item <= ID_LIMIT,
            next_visible_thing <= ID_LIMIT,
            next_thing <= ID_LIMIT,
            next_byte_stream <= ID_LIMIT,
            tiles_mapped(tile_type_map@, entries, accepted(entries, DataCategory::Tile, i as int)),
            grounds_mapped(
                ground_type_map@,
                entries,
                accepted(entries, DataCategory::Ground, i as int),
            ),
            items_mapped(item_type_map@, entries, accepted(entries, DataCategory::Item, i as int)),
            visible_things_mapped(
                visible_thing_type_map@,
                entries,
                accepted(entries, DataCategory::VisibleThing, i as int),
            ),
            things_mapped(
                thing_type_map@,
                entries,
                accepted(entries, DataCategory::Thing, i as int),
            ),
            byte_streams_mapped(
                byte_stream_map@,
                entries,
                accepted(entries, DataCategory::ByteStream, i as int),
            ),
            names_mapped(
                tile_type_identifiers,
                entries,
                accepted(entries, DataCategory::Tile, i as int),
            ),
            names_mapped(
                ground_type_identifiers,
                entries,
                accepted(entries, DataCategory::Ground, i as int),
            ),
            names_mapped(
                item_type_identifiers,
                entries,
                accepted(entries, DataCategory::Item, i as int),
            ),
            names_mapped(
                visible_thing_type_identifiers,
                entries,
                accepted(entries, DataCategory::VisibleThing, i as int),
            ),
            names_mapped(
                thing_type_identifiers,
                entries,
                accepted(entries, DataCategory::Thing, i as int),
            ),
            names_mapped(
                byte_stream_identifiers,
                entries,
                accepted(entries, DataCategory::ByteStream, i as int),
            ),
            diagnostics@ == failures(entries, i as int),
        decreases i,
    {
        i -= 1;
        let entry = &filtered_map_dump[i];
        let ident = &entry.identifier;
        let ghost tiles = accepted(entries, DataCategory::Tile, i + 1);
        let ghost grounds = accepted(entries, DataCategory::Ground, i + 1);
        let ghost items = accepted(entries, DataCategory::Item, i + 1);
        let ghost visible_things = accepted(entries, DataCategory::VisibleThing, i + 1);
        let ghost things = accepted(entries, DataCategory::Thing, i + 1);
        let ghost byte_streams = accepted(entries, DataCategory::ByteStream, i + 1);

        match entry.data {
            Deserialization::Tile(data) => {
                match find_visual_data(filtered_map_dump, ident) {
                    Some(visual) => {
                        if next_tile < ID_LIMIT {
                            let id = next_tile as u16;
                            admit_tile(
                                &mut tile_type_map,
                                filtered_map_dump,
                                i,
                                id,
                                data,
                                visual,
                                Ghost(tiles),
                            );
                            register_name(
                                &mut tile_type_identifiers,
                                filtered_map_dump,
                                i,
                                id,
                                Ghost(tiles),
                            );
                            next_tile += 1;
                        } else {
                            report(&mut diagnostics, LoadFailure::OutOfIdentifiers, ident);
                        }
                    },
                    None => {
                        report(&mut diagnostics, LoadFailure::MissingVisualData, ident);
                    },
                }
            },
            Deserialization::Ground(data) => {
                match find_visual_data(filtered_map_dump, ident) {
                    Some(visual) => {
                        if next_ground < ID_LIMIT {
                            let id = next_ground as u16;
                            admit_ground(
                                &mut ground_type_map,
                                filtered_map_dump,
                                i,
                                id,
                                data,
                                visual,
                                Ghost(grounds),
                            );
                            register_name(
                                &mut ground_type_identifiers,
                                filtered_map_dump,
                                i,
                                id,
                                Ghost(grounds),
                            );
                            next_ground += 1;
                        } else {
                            report(&mut diagnostics, LoadFailure::OutOfIdentifiers, ident);
                        }
                    },
                    None => {
                        report(&mut diagnostics, LoadFailure::MissingVisualData, ident);
                    },
                }
            },
            Deserialization::Item(_) => {
                match find_visual_data(filtered_map_dump, ident) {
                    Some(visual) => {
                        if next_item < ID_LIMIT {
                            let id = next_item as u16;
                            admit_item(
                                &mut item_type_map,
                                filtered_map_dump,
                                i,
                                id,
                                visual,
                                Ghost(items),
                            );
                            register_name(
                                &mut item_type_identifiers,
                                filtered_map_dump,
                                i,
                                id,
                                Ghost(items),
                            );
                            next_item += 1;
                        } else {
                            report(&mut diagnostics, LoadFailure::OutOfIdentifiers, ident);
                        }
                    },
                    None => {
                        report(&mut diagnostics, LoadFailure::MissingVisualData, ident);
                    },
                }
            },
            Deserialization::VisibleThing(data) => {
                match find_visual_data(filtered_map_dump, ident) {
                    Some(visual) => {
                        match &data.type_identifier {
                            Some(type_identifier) => {
                                if next_visible_thing < ID_LIMIT {
                                    let id = next_visible_thing as u16;
                                    admit_visible_thing(
                                        &mut visible_thing_type_map,
                                        filtered_map_dump,
                                        i,
                                        id,
                                        type_identifier,
                                        visual,
                                        Ghost(visible_things),
                                    );
                                    register_name(
                                        &mut visible_thing_type_identifiers,
                                        filtered_map_dump,
                                        i,
                                        id,
                                        Ghost(visible_things),
                                    );
                                    next_visible_thing += 1;
                                } else {
                                    report(&mut diagnostics, LoadFailure::OutOfIdentifiers, ident);
                                }
                            },
                            None => {
                                report(&mut diagnostics, LoadFailure::MissingRequiredField, ident);
                            },
                        }
                    },
                    None => {
                        report(&mut diagnostics, LoadFailure::MissingVisualData, ident);
                    },
                }
            },
            Deserialization::Thing(data) => {
                match &data.type_identifier {
                    Some(type_identifier) => {
                        if next_thing < ID_LIMIT {
                            let id = next_thing as u16;
                            admit_thing(
                                &mut thing_type_map,
                                filtered_map_dump,
                                i,
                                id,
                                type_identifier,
                                Ghost(things),
                            );
                            register_name(
                                &mut thing_type_identifiers,
                                filtered_map_dump,
                                i,
                                id,
                                Ghost(things),
                            );
                            next_thing += 1;
                        } else {
                            report(&mut diagnostics, LoadFailure::OutOfIdentifiers, ident);
                        }
                    },
                    None => {
                        report(&mut diagnostics, LoadFailure::MissingRequiredField, ident);
                    },
                }
            },
            Deserialization::ByteStream(data) => {
                match &data.bytes {
                    Some(bytes) => {
                        if next_byte_stream < ID_LIMIT {
                            let id = next_byte_stream as u16;
                            admit_byte_stream(
                                &mut byte_stream_map,
                                filtered_map_dump,
                                i,
                                id,
                                bytes,
                                Ghost(byte_streams),
                            );
                            register_name(
                                &mut byte_stream_identifiers,
                                filtered_map_dump,
                                i,
                                id,
                                Ghost(byte_streams),
                            );
                            next_byte_stream += 1;
                        } else {
                            report(&mut diagnostics, LoadFailure::OutOfIdentifiers, ident);
                        }
                    },
                    None => {
                        report(&mut diagnostics, LoadFailure::MissingRequiredField, ident);
                    },
                }
            },
            Deserialization::VisualData(_) => {},
        }
    }

    (
        GameDataDump {
            game_data: MappedGameDatas {
                tile_types: tile_type_map,
                ground_types: ground_type_map,
                item_types: item_type_map,
                visible_thing_types: visible_thing_type_map,
                thing_types: thing_type_map,
                byte_streams: byte_stream_map,
            },
            identifiers: IdentifierMaps {
                tile_types: tile_type_identifiers,
                ground_types: ground_type_identifiers,
                item_types: item_type_identifiers,
                visible_thing_types: visible_thing_type_identifiers,
                thing_types: thing_type_identifiers,
                byte_streams: byte_stream_identifiers,
            },
        },
        diagnostics,
    )
}

/// Runs the whole pipeline on collected modules. The declarations are flattened
/// onto the end of `pre_map_dump`, the conflicts of that list are resolved in
/// place, and the registry of what is left is built.
pub fn map_deserialized_dump<'a>(
    pre_map_dump: &mut PreMapDump<'a>,
    deserial_dump: &'a DeserializationDump,
) -> (mapped: (GameDataDump, Vec<LoadDiagnostic>))
    ensures
        final(pre_map_dump)@ == resolved(old(pre_map_dump)@ + flattened(deserial_dump@)),
        is_mapping_of(final(pre_map_dump)@, mapped.0),
        mapped.1@ == failures(final(pre_map_dump)@, 0),
{
    flatten_deserialized_dump(pre_map_dump, deserial_dump);
    filter_pre_map_dump(pre_map_dump);
    filtered_pre_map_to_map(pre_map_dump)
}

} // verus!
