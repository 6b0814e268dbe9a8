//! Declarations as modules give them, and the flat list of entries that they
//! are expanded into before conflicts are resolved.

use vstd::prelude::*;
use vstd::string::{StrSliceExecFns, StringExecFns};

verus! {

/// The kinds of content that a declaration can hold.
#[derive(Clone, Copy, Debug, PartialEq, Eq, Structural)]
pub enum DataCategory {
    Tile,
    Ground,
    Item,
    VisibleThing,
    Thing,
    ByteStream,
    VisualData,
}

impl DataCategory {
    /// Whether an entry of this category is shown on the map, and so needs visual
    /// data beside it.
    pub open spec fn needs_visual(self) -> bool {
        self == DataCategory::Tile || self == DataCategory::Ground || self == DataCategory::Item
            || self == DataCategory::VisibleThing
    }

    /// The short name of the category, as diagnostics show it.
    pub fn name(&self) -> (s: &'static str)
        ensures
            s@ == category_name(*self),
    {
        match self {
            DataCategory::Tile => "tile",
            DataCategory::Ground => "ground",
            DataCategory::Item => "item",
            DataCategory::VisibleThing => "vis_thing",
            DataCategory::Thing => "thing",
            DataCategory::ByteStream => "byte_stream",
            DataCategory::VisualData => "vis_data",
        }
    }
}

/// The characters of a category's name.
pub open spec fn category_name(c: DataCategory) -> Seq<char> {
    match c {
        DataCategory::Tile => "tile"@,
        DataCategory::Ground => "ground"@,
        DataCategory::Item => "item"@,
        DataCategory::VisibleThing => "vis_thing"@,
        DataCategory::Thing => "thing"@,
        DataCategory::ByteStream => "byte_stream"@,
        DataCategory::VisualData => "vis_data"@,
    }
}

/// A world generation weight, held as the bit pattern of an IEEE 754 double
/// precision number.
#[derive(Clone, Copy, Debug, PartialEq, Eq, Structural)]
pub struct Weight {
    pub bits: u64,
}

impl Weight {
    /// Whether the number is greater than zero: its sign bit is clear and it is
    /// neither zero nor a NaN, so its pattern lies between the smallest subnormal
    /// and positive infinity.
    pub open spec fn positive(self) -> bool {
        0 < self.bits <= 0x7FF0_0000_0000_0000
    }

    /// The weight zero, which keeps an entry out of world generation.
    pub fn zero() -> (w: Self)
        ensures
            w.bits == 0,
            !w.positive(),
    {
        Weight { bits: 0 }
    }

    /// Whether the weight is greater than zero.
    pub fn is_positive(&self) -> (p: bool)
        ensures
            p == self.positive(),
    {
        0 < self.bits && self.bits <= 0x7FF0_0000_0000_0000
    }
}

/// What a declaration says of a tile.
#[derive(Clone, Copy, Debug)]
pub struct TileDeserialData {
    pub solid: Option<bool>,
    pub world_gen_weight: Option<Weight>,
}

/// What a declaration says of a ground.
#[derive(Clone, Copy, Debug)]
pub struct GroundDeserialData {
    pub solid: Option<bool>,
    pub world_gen_weight: Option<Weight>,
}

/// What a declaration says of an item: that there is one.
#[derive(Clone, Copy, Debug)]
pub struct ItemDeserialData {}

/// What a declaration says of a thing that is shown on the map.
#[derive(Clone, Debug)]
pub struct VisibleThingDeserialData {
    pub type_identifier: Option<String>,
    pub bytes: Option<Vec<u8>>,
}

/// What a declaration says of a thing that is not shown.
#[derive(Clone, Debug)]
pub struct ThingDeserialData {
    pub type_identifier: Option<String>,
    pub bytes: Option<Vec<u8>>,
}

/// What a declaration says of a stream of bytes.
#[derive(Clone, Debug)]
pub struct ByteStreamDeserialData {
    pub type_identifier: Option<String>,
    pub bytes: Option<Vec<u8>>,
}

/// How the content of the same source and name is shown.
#[derive(Clone, Debug)]
pub struct VisualDeserData {
    pub name: Option<String>,
    pub character_left: Option<String>,
    pub character_right: Option<String>,
    pub text_color_left: Option<(u8, u8, u8)>,
    pub text_color_right: Option<(u8, u8, u8)>,
    pub back_color_left: Option<(u8, u8, u8)>,
    pub back_color_right: Option<(u8, u8, u8)>,
}

/// One declaration file: up to seven payloads under one name.
#[derive(Clone, Debug)]
pub struct ModuleDeserialization {
    /// by default the module name
    pub source: Option<String>,
    pub priority: Option<u8>,
    pub tile: Option<TileDeserialData>,
    pub ground: Option<GroundDeserialData>,
    pub item: Option<ItemDeserialData>,
    pub visible_thing: Option<VisibleThingDeserialData>,
    pub thing: Option<ThingDeserialData>,
    pub byte_stream: Option<ByteStreamDeserialData>,
    pub visual_data: Option<VisualDeserData>,
}

/// The modules in the order in which they were collected, each with its name and
/// its declarations, a declaration with the name of its file.
pub type DeserializationDump = Vec<(String, Vec<(String, ModuleDeserialization)>)>;

/// The flat list of entries.
pub type PreMapDump<'a> = Vec<UnmappedData<'a>>;

/// One payload of a declaration, borrowed from it.
#[derive(Clone, Copy, Debug)]
pub enum Deserialization<'a> {
    Tile(&'a TileDeserialData),
    Ground(&'a GroundDeserialData),
    Item(&'a ItemDeserialData),
    VisibleThing(&'a VisibleThingDeserialData),
    Thing(&'a ThingDeserialData),
    ByteStream(&'a ByteStreamDeserialData),
    VisualData(&'a VisualDeserData),
}

impl<'a> Deserialization<'a> {
    /// The category that the payload belongs to.
    pub open spec fn category(self) -> DataCategory {
        match self {
            Deserialization::Tile(_) => DataCategory::Tile,
            Deserialization::Ground(_) => DataCategory::Ground,
            Deserialization::Item(_) => DataCategory::Item,
            Deserialization::VisibleThing(_) => DataCategory::VisibleThing,
            Deserialization::Thing(_) => DataCategory::Thing,
            Deserialization::ByteStream(_) => DataCategory::ByteStream,
            Deserialization::VisualData(_) => DataCategory::VisualData,
        }
    }

    /// The category that the payload belongs to.
    pub fn data_type(&self) -> (c: DataCategory)
        ensures
            c == self.category(),
    {
        match self {
            Deserialization::Tile(_) => DataCategory::Tile,
            Deserialization::Ground(_) => DataCategory::Ground,
            Deserialization::Item(_) => DataCategory::Item,
            Deserialization::VisibleThing(_) => DataCategory::VisibleThing,
            Deserialization::Thing(_) => DataCategory::Thing,
            Deserialization::ByteStream(_) => DataCategory::ByteStream,
            Deserialization::VisualData(_) => DataCategory::VisualData,
        }
    }
}

/// Who declared an entry, how strongly, and what it is called.
#[derive(Clone, Debug)]
pub struct PreMapIdentifier {
    pub source: String,
    pub priority: u8,
    pub data_type: DataCategory,
    pub name: String,
}

impl PreMapIdentifier {
    /// Two entries are the same content when source, category and name agree; the
    /// priority tells which of them is kept.
    pub open spec fn same_identity(self, other: Self) -> bool {
        self.source@ == other.source@ && self.data_type == other.data_type && self.name@
            == other.name@
    }

    /// Whether both stand for the same content.
    pub fn is_same_identity(&self, other: &Self) -> (same: bool)
        ensures
            same == self.same_identity(*other),
    {
        self.source == other.source && self.data_type == other.data_type && self.name
            == other.name
    }

    /// A copy that is equal to the value itself.
    pub fn duplicate(&self) -> (copy: Self)
        ensures
            copy == *self,
    {
        PreMapIdentifier {
            source: self.source.clone(),
            priority: self.priority,
            data_type: self.data_type,
            name: self.name.clone(),
        }
    }
}

/// One payload with its identity, before ids are given out.
#[derive(Clone, Debug)]
pub struct UnmappedData<'a> {
    pub identifier: PreMapIdentifier,
    pub data: Deserialization<'a>,
}

impl<'a> UnmappedData<'a> {
    /// The identity names the category of the payload that it stands beside.
    pub open spec fn wf(self) -> bool {
        self.identifier.data_type == self.data.category()
    }

    /// The entry of a payload that `source` declares under `name`.
    pub fn new(source: String, priority: u8, name: String, data: Deserialization<'a>) -> (entry:
        Self)
        ensures
            entry == entry_of(source, priority, name, data),
            entry.wf(),
    {
        UnmappedData {
            identifier: PreMapIdentifier { source, priority, data_type: data.data_type(), name },
            data,
        }
    }

    /// A copy that is equal to the value itself.
    pub fn duplicate(&self) -> (copy: Self)
        ensures
            copy == *self,
    {
        UnmappedData { identifier: self.identifier.duplicate(), data: self.data }
    }
}

/// Whether every entry of a list names the category of its own payload.
pub open spec fn all_wf(entries: Seq<UnmappedData>) -> bool {
    forall|i: int| 0 <= i < entries.len() ==> (#[trigger] entries[i]).wf()
}

/// The entry of a payload that `source` declares under `name`.
pub open spec fn entry_of<'a>(
    source: String,
    priority: u8,
    name: String,
    data: Deserialization<'a>,
) -> UnmappedData<'a> {
    UnmappedData {
        identifier: PreMapIdentifier { source, priority, data_type: data.category(), name },
        data,
    }
}

/// The seven places of a declaration in their fixed order, each holding its
/// payload if the declaration has one.
pub open spec fn payload_slots<'a>(d: &'a ModuleDeserialization) -> Seq<Option<Deserialization<'a>>> {
    seq![
        match d.tile { Some(x) => Some(Deserialization::Tile(&x)), None => None },
        match d.ground { Some(x) => Some(Deserialization::Ground(&x)), None => None },
        match d.item { Some(x) => Some(Deserialization::Item(&x)), None => None },
        match d.visible_thing { Some(x) => Some(Deserialization::VisibleThing(&x)), None => None },
        match d.thing { Some(x) => Some(Deserialization::Thing(&x)), None => None },
        match d.byte_stream { Some(x) => Some(Deserialization::ByteStream(&x)), None => None },
        match d.visual_data { Some(x) => Some(Deserialization::VisualData(&x)), None => None },
    ]
}

/// The payloads of a declaration, each in its place.
pub fn get_in_file<'a>(file_data: &'a ModuleDeserialization) -> (file_contents: [Option<Deserialization<'a>>; 7])
    ensures
        file_contents@ == payload_slots(file_data),
{
    let tile = match &file_data.tile {
        Some(x) => Some(Deserialization::Tile(x)),
        None => None,
    };
    let ground = match &file_data.ground {
        Some(x) => Some(Deserialization::Ground(x)),
        None => None,
    };
    let item = match &file_data.item {
        Some(x) => Some(Deserialization::Item(x)),
        None => None,
    };
    let visible_thing = match &file_data.visible_thing {
        Some(x) => Some(Deserialization::VisibleThing(x)),
        None => None,
    };
    let thing = match &file_data.thing {
        Some(x) => Some(Deserialization::Thing(x)),
        None => None,
    };
    let byte_stream = match &file_data.byte_stream {
        Some(x) => Some(Deserialization::ByteStream(x)),
        None => None,
    };
    let visual_data = match &file_data.visual_data {
        Some(x) => Some(Deserialization::VisualData(x)),
        None => None,
    };
    let file_contents = [tile, ground, item, visible_thing, thing, byte_stream, visual_data];
    assert(file_contents@ =~= payload_slots(file_data));
    file_contents
}

/// The source of a declaration's entries: the one that it names, else its module.
pub open spec fn declared_source(module_name: String, d: &ModuleDeserialization) -> String {
    match d.source {
        Some(explicit_source) => explicit_source,
        None => module_name,
    }
}

/// The priority of a declaration's entries: the one that it names, else 0.
pub open spec fn declared_priority(d: &ModuleDeserialization) -> u8 {
    match d.priority {
        Some(priority) => priority,
        None => 0,
    }
}

/// The entries of the payloads in the first `k` places of a declaration.
pub open spec fn file_entries<'a>(
    module_name: String,
    file_name: String,
    d: &'a ModuleDeserialization,
    k: int,
) -> Seq<UnmappedData<'a>>
    decreases k,
{
    if k <= 0 {
        Seq::empty()
    } else {
        let before = file_entries(module_name, file_name, d, k - 1);
        match payload_slots(d)[k - 1] {
            Some(data) => before.push(
                entry_of(declared_source(module_name, d), declared_priority(d), file_name, data),
            ),
            None => before,
        }
    }
}

/// The entries of the first `n` declarations of a module.
pub open spec fn module_entries<'a>(
    module_name: String,
    files: Seq<(String, ModuleDeserialization)>,
    n: int,
) -> Seq<UnmappedData<'a>>
    decreases n,
{
    if n <= 0 {
        Seq::empty()
    } else {
        module_entries(module_name, files, n - 1) + file_entries(
            module_name,
            files[n - 1].0,
            &files[n - 1].1,
            7,
        )
    }
}

/// The entries of the first `n` modules.
pub open spec fn dump_entries<'a>(
    dump: Seq<(String, Vec<(String, ModuleDeserialization)>)>,
    n: int,
) -> Seq<UnmappedData<'a>>
    decreases n,
{
    if n <= 0 {
        Seq::empty()
    } else {
        dump_entries(dump, n - 1) + module_entries(dump[n - 1].0, dump[n - 1].1@, dump[n - 1].1@.len() as int)
    }
}

/// The entries of all the modules: one for each payload of each declaration, in
/// the order of the modules, of their declarations and of the seven places.
pub open spec fn flattened<'a>(dump: Seq<(String, Vec<(String, ModuleDeserialization)>)>) -> Seq<UnmappedData<'a>> {
    dump_entries(dump, dump.len() as int)
}

/// A declaration yields at most seven entries, one for each payload that it
/// has. Each carries the declaration's source, priority and name, and names
/// the category of its payload.
pub proof fn lemma_file_entries(
    module_name: String,
    file_name: String,
    d: &ModuleDeserialization,
    k: int,
)
    requires
        0 <= k <= 7,
    ensures
        file_entries(module_name, file_name, d, k).len() <= k,
        forall|i: int|
            0 <= i < file_entries(module_name, file_name, d, k).len() ==> {
                let entry = #[trigger] file_entries(module_name, file_name, d, k)[i];
                &&& entry.wf()
                &&& entry.identifier.source == declared_source(module_name, d)
                &&& entry.identifier.priority == declared_priority(d)
                &&& entry.identifier.name == file_name
                &&& exists|slot: int|
                    0 <= slot < k && #[trigger] payload_slots(d)[slot] == Some(entry.data)
            },
        forall|slot: int|
            0 <= slot < k && payload_slots(d)[slot].is_some() ==> exists|i: int|
                0 <= i < file_entries(module_name, file_name, d, k).len() && (#[trigger] file_entries(
                    module_name,
                    file_name,
                    d,
                    k,
                )[i]).data == payload_slots(d)[slot].unwrap(),
    decreases k,
{
    if k > 0 {
        lemma_file_entries(module_name, file_name, d, k - 1);
        let before = file_entries(module_name, file_name, d, k - 1);
        let now = file_entries(module_name, file_name, d, k);
        assert forall|i: int| 0 <= i < now.len() implies {
            let entry = #[trigger] now[i];
            &&& entry.wf()
            &&& entry.identifier.source == declared_source(module_name, d)
            &&& entry.identifier.priority == declared_priority(d)
            &&& entry.identifier.name == file_name
            &&& exists|slot: int|
                0 <= slot < k && #[trigger] payload_slots(d)[slot] == Some(entry.data)
        } by {
            if i < before.len() {
                assert(now[i] == before[i]);
                let slot = choose|slot: int|
                    0 <= slot < k - 1 && #[trigger] payload_slots(d)[slot] == Some(before[i].data);
                assert(payload_slots(d)[slot] == Some(now[i].data));
            } else {
                assert(payload_slots(d)[k - 1] == Some(now[i].data));
            }
        }
        assert forall|slot: int| 0 <= slot < k && payload_slots(d)[slot].is_some() implies exists|
            i: int,
        |
            0 <= i < now.len() && (#[trigger] now[i]).data == payload_slots(d)[slot].unwrap() by {
            if slot < k - 1 {
                let i = choose|i: int|
                    0 <= i < before.len() && (#[trigger] before[i]).data == payload_slots(
                        d,
                    )[slot].unwrap();
                assert(now[i].data == payload_slots(d)[slot].unwrap());
            } else {
                assert(now[now.len() - 1].data == payload_slots(d)[slot].unwrap());
            }
        }
    }
}

/// Appends to `pre_map_dump` one entry for each payload of each declaration. An
/// entry gets the declaration's source, or else the module's name, the
/// declaration's priority, or else 0, and the name of the declaration's file.
pub fn flatten_deserialized_dump<'a>(
    pre_map_dump: &mut PreMapDump<'a>,
    deserial_dump: &'a DeserializationDump,
)
    ensures
        final(pre_map_dump)@ == old(pre_map_dump)@ + flattened(deserial_dump@),
        all_wf(old(pre_map_dump)@) ==> all_wf(final(pre_map_dump)@),
{
    let ghost start = pre_map_dump@;
    let mut mi: usize = 0;
    while mi < deserial_dump.len()
        invariant
            mi <= deserial_dump@.len(),
            pre_map_dump@ == start + dump_entries(deserial_dump@, mi as int),
            all_wf(start) ==> all_wf(pre_map_dump@),
        decreases deserial_dump@.len() - mi,
    {
        let module_name = &deserial_dump[mi].0;
        let module_contents = &deserial_dump[mi].1;
        let ghost before_module = pre_map_dump@;
        let mut fi: usize = 0;
        while fi < module_contents.len()
            invariant
                fi <= module_contents@.len(),
                pre_map_dump@ == before_module + module_entries(
                    *module_name,
                    module_contents@,
                    fi as int,
                ),
                all_wf(before_module) ==> all_wf(pre_map_dump@),
            decreases module_contents@.len() - fi,
        {
            let file_name = &module_contents[fi].0;
            let file_data = &module_contents[fi].1;
            let priority = match file_data.priority {
                Some(priority) => priority,
                None => 0,
            };
            let file_contents = get_in_file(file_data);
            let ghost before_file = pre_map_dump@;
            let mut k: usize = 0;
            while k < 7
                invariant
                    k <= 7,
                    file_contents@ == payload_slots(file_data),
                    priority == declared_priority(file_data),
                    pre_map_dump@ == before_file + file_entries(
                        *module_name,
                        *file_name,
                        file_data,
                        k as int,
                    ),
                    all_wf(before_file) ==> all_wf(pre_map_dump@),
                decreases 7 - k,
            {
                if let Some(data) = file_contents[k] {
                    let source = match &file_data.source {
                        Some(explicit_source) => explicit_source.clone(),
                        None => module_name.clone(),
                    };
                    let pre_map_data = UnmappedData::new(source, priority, file_name.clone(), data);
                    pre_map_dump.push(pre_map_data);
                }
                k += 1;
                assert(pre_map_dump@ =~= before_file + file_entries(
                    *module_name,
                    *file_name,
                    file_data,
                    k as int,
                ));
            }
            fi += 1;
            assert(pre_map_dump@ =~= before_module + module_entries(
                *module_name,
                module_contents@,
                fi as int,
            ));
        }
        mi += 1;
        assert(pre_map_dump@ =~= start + dump_entries(deserial_dump@, mi as int));
    }
}

/// The place of the first module from `from` on that is called `name`.
pub open spec fn module_position(
    dump: Seq<(String, Vec<(String, ModuleDeserialization)>)>,
    name: Seq<char>,
    from: int,
) -> Option<int>
    decreases dump.len() - from,
{
    if from < 0 || from >= dump.len() {
        None
    } else if dump[from].0@ == name {
        Some(from)
    } else {
        module_position(dump, name, from + 1)
    }
}

/// Whether no two modules have the same name.
pub open spec fn distinct_modules(dump: Seq<(String, Vec<(String, ModuleDeserialization)>)>) -> bool {
    forall|a: int, b: int|
        0 <= a < dump.len() && 0 <= b < dump.len() && a != b ==> (#[trigger] dump[a]).0@
            != (#[trigger] dump[b]).0@
}

/// Whether `after` is `before` with the declarations added to the module
/// `module`: at the end of that module's list where the module is there, and
/// else as a new module behind the others.
pub open spec fn is_merge_of(
    before: Seq<(String, Vec<(String, ModuleDeserialization)>)>,
    after: Seq<(String, Vec<(String, ModuleDeserialization)>)>,
    module: String,
    declarations: Seq<(String, ModuleDeserialization)>,
) -> bool {
    match module_position(before, module@, 0) {
        Some(i) => {
            &&& after.len() == before.len()
            &&& after[i].0 == before[i].0
            &&& after[i].1@ == before[i].1@ + declarations
            &&& forall|j: int| 0 <= j < before.len() && j != i ==> after[j] == before[j]
        },
        None => {
            &&& after.len() == before.len() + 1
            &&& after[before.len() as int].0 == module
            &&& after[before.len() as int].1@ == declarations
            &&& forall|j: int| 0 <= j < before.len() ==> after[j] == before[j]
        },
    }
}

proof fn lemma_module_position(
    dump: Seq<(String, Vec<(String, ModuleDeserialization)>)>,
    name: Seq<char>,
    from: int,
)
    requires
        0 <= from,
    ensures
        match module_position(dump, name, from) {
            Some(i) => from <= i < dump.len() && dump[i].0@ == name,
            None => forall|j: int| from <= j < dump.len() ==> (#[trigger] dump[j]).0@ != name,
        },
    decreases dump.len() - from,
{
    if from < dump.len() {
        lemma_module_position(dump, name, from + 1);
    }
}

/// Adds declarations to the module called `module`. Where the dump has such a
/// module, they go to the end of its list; where it has none, they become a new
/// module behind the others. Modules with names of their own keep them.
pub fn merge_module_declarations(
    dump: &mut DeserializationDump,
    module: String,
    declarations: Vec<(String, ModuleDeserialization)>,
)
    ensures
        is_merge_of(old(dump)@, final(dump)@, module, declarations@),
        distinct_modules(old(dump)@) ==> distinct_modules(final(dump)@),
{
    let ghost added = declarations@;
    let mut incoming = declarations;
    let mut i: usize = 0;
    while i < dump.len()
        invariant
            i <= dump@.len(),
            dump@ == old(dump)@,
            incoming@ == added,
            declarations@ == added,
            module_position(dump@, module@, 0) == module_position(dump@, module@, i as int),
        decreases dump@.len() - i,
    {
        if dump[i].0 == module {
            assert(module_position(old(dump)@, module@, 0) == Some(i as int));
            let (name, mut list) = dump.remove(i);
            list.append(&mut incoming);
            dump.insert(i, (name, list));
            proof {
                let before = old(dump)@;
                let after = dump@;
                assert(after.len() == before.len());
                assert(after[i as int].0 == before[i as int].0);
                assert(after[i as int].1@ == before[i as int].1@ + added);
                assert forall|j: int| 0 <= j < before.len() && j != i implies after[j]
                    == before[j] by {
                    if j < i {
                        assert(after[j] == before.remove(i as int)[j]);
                    } else {
                        assert(after[j] == before.remove(i as int)[j - 1]);
                    }
                }
                assert forall|a: int, b: int|
                    distinct_modules(before) && 0 <= a < after.len() && 0 <= b < after.len() && a
                        != b implies (#[trigger] after[a]).0@ != (#[trigger] after[b]).0@ by {
                    assert(after[a].0 == before[a].0);
                    assert(after[b].0 == before[b].0);
                }
            }
            return ;
        }
        i += 1;
    }
    proof {
        lemma_module_position(dump@, module@, 0);
    }
    dump.push((module, incoming));
    proof {
        let before = old(dump)@;
        let after = dump@;
        assert forall|a: int, b: int|
            distinct_modules(before) && 0 <= a < after.len() && 0 <= b < after.len() && a
                != b implies (#[trigger] after[a]).0@ != (#[trigger] after[b]).0@ by {
            if a < before.len() {
                assert(after[a] == before[a]);
            }
            if b < before.len() {
                assert(after[b] == before[b]);
            }
        }
    }
}

/// The ending of the name of a declaration file.
pub open spec fn declaration_ending() -> Seq<char> {
    seq!['.', 't', 'o', 'm', 'l']
}

/// Whether a name ends in the ending of declaration files.
pub open spec fn has_declaration_ending(name: Seq<char>) -> bool {
    name.len() >= 5 && name.subrange(name.len() - 5, name.len() as int) == declaration_ending()
}

/// Whether a file of this name is a declaration file: the name ends in `.toml`
/// and has something before that ending.
pub open spec fn is_declaration_file(name: Seq<char>) -> bool {
    name.len() > 5 && has_declaration_ending(name)
}

/// The name of the content that a declaration file declares: the name of the
/// file without its ending, however often the ending is repeated.
pub open spec fn declared_name(name: Seq<char>) -> Seq<char>
    decreases name.len(),
{
    if has_declaration_ending(name) {
        declared_name(name.take(name.len() - 5))
    } else {
        name
    }
}

fn ends_at(file_name: &str, end: usize) -> (ends: bool)
    requires
        end <= file_name@.len(),
    ensures
        ends == has_declaration_ending(file_name@.take(end as int)),
{
    if end < 5 {
        return false;
    }
    let ends = file_name.get_char(end - 5) == '.' && file_name.get_char(end - 4) == 't'
        && file_name.get_char(end - 3) == 'o' && file_name.get_char(end - 2) == 'm'
        && file_name.get_char(end - 1) == 'l';
    proof {
        let name = file_name@.take(end as int);
        let tail = name.subrange(name.len() - 5, name.len() as int);
        assert(tail.len() == 5);
        assert(tail[0] == file_name@[end - 5]);
        assert(tail[1] == file_name@[end - 4]);
        assert(tail[2] == file_name@[end - 3]);
        assert(tail[3] == file_name@[end - 2]);
        assert(tail[4] == file_name@[end - 1]);
        if ends {
            assert(tail =~= declaration_ending());
        }
    }
    ends
}

/// The name under which a file declares content, if it is a declaration file.
pub fn declaration_name(file_name: &str) -> (name: Option<String>)
    ensures
        match name {
            Some(n) => is_declaration_file(file_name@) && n@ == declared_name(file_name@),
            None => !is_declaration_file(file_name@),
        },
{
    let len = file_name.unicode_len();
    assert(file_name@.take(len as int) =~= file_name@);
    if len <= 5 || !ends_at(file_name, len) {
        return None;
    }
    let mut end = len;
    while ends_at(file_name, end)
        invariant
            end <= len,
            len == file_name@.len(),
            declared_name(file_name@) == declared_name(file_name@.take(end as int)),
        decreases end,
    {
        assert(file_name@.take(end as int).take(end - 5) =~= file_name@.take(end - 5));
        end -= 5;
    }
    Some(String::from_str(file_name.substring_char(0, end)))
}

} // verus!
