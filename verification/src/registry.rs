//! What the rest of the engine asks of the registry: a type by its id, an id by
//! its name, all the types of a category, and the candidates of world generation.

use vstd::prelude::*;
use std::collections::HashMap;
use crate::ground::GroundType;
use crate::identifiers::{
    one_to_one, identifier_map_get_by_left, identifier_map_get_by_right, lemma_bind_one_to_one,
};
use crate::item::ItemType;
use crate::mapping::{
    ByteStream, ByteStreamView, GameDataDump, MappedGameData, ThingType, ThingTypeView,
    VisibleThingType, VisibleThingTypeView, ID_LIMIT, accepted, admits, ids_below, is_mapping_of,
    names_bound, obstacle, type_key, visual_of,
};
use crate::module_loading::{DataCategory, UnmappedData, Weight, all_wf};
use crate::resolve::{
    lemma_resolved_from_entries, lemma_resolved_unique, resolved, same_content, unique_identities,
};
use crate::tile::{TileType, TileTypeView};

verus! {

broadcast use vstd::std_specs::hash::group_hash_axioms;

/// A type of any category, borrowed from the registry.
#[derive(Clone, Copy, Debug)]
pub enum TypeRecord<'a> {
    Tile(&'a TileType),
    Ground(&'a GroundType),
    Item(&'a ItemType),
    VisibleThing(&'a VisibleThingType),
    Thing(&'a ThingType),
    ByteStream(&'a ByteStream),
}

impl<'a> TypeRecord<'a> {
    /// The id that the type says it has.
    pub open spec fn spec_identifier(self) -> u16 {
        match self {
            TypeRecord::Tile(t) => t.identifier,
            TypeRecord::Ground(t) => t.identifier,
            TypeRecord::Item(t) => t.identifier,
            TypeRecord::VisibleThing(t) => t.identifier,
            TypeRecord::Thing(t) => t.identifier,
            TypeRecord::ByteStream(t) => t.identifier,
        }
    }

    /// The id that the type says it has.
    pub fn identifier(&self) -> (id: u16)
        ensures
            id == self.spec_identifier(),
    {
        match self {
            TypeRecord::Tile(t) => t.identifier,
            TypeRecord::Ground(t) => t.identifier,
            TypeRecord::Item(t) => t.identifier,
            TypeRecord::VisibleThing(t) => t.identifier,
            TypeRecord::Thing(t) => t.identifier,
            TypeRecord::ByteStream(t) => t.identifier,
        }
    }
}

/// A type of any category, with its strings and bytes as sequences.
pub enum TypeRecordView {
    Tile(TileTypeView),
    Ground(GroundType),
    Item(ItemType),
    VisibleThing(VisibleThingTypeView),
    Thing(ThingTypeView),
    ByteStream(ByteStreamView),
}

impl<'a> View for TypeRecord<'a> {
    type V = TypeRecordView;

    open spec fn view(&self) -> TypeRecordView {
        match *self {
            TypeRecord::Tile(t) => TypeRecordView::Tile(t@),
            TypeRecord::Ground(t) => TypeRecordView::Ground(*t),
            TypeRecord::Item(t) => TypeRecordView::Item(*t),
            TypeRecord::VisibleThing(t) => TypeRecordView::VisibleThing(t@),
            TypeRecord::Thing(t) => TypeRecordView::Thing(t@),
            TypeRecord::ByteStream(t) => TypeRecordView::ByteStream(t@),
        }
    }
}

/// Whether the ids of a list rise from each to the next.
pub open spec fn rising(ids: Seq<u16>) -> bool {
    forall|a: int, b: int| 0 <= a < b < ids.len() ==> ids[a] < ids[b]
}

/// The members of `of` that are below `k`.
pub open spec fn present_below(of: Set<u16>, k: int) -> Set<u16> {
    Set::new(|id: u16| of.contains(id) && (id as int) < k)
}

/// The ids that have a type, from the lowest to the highest.
fn present_ids<T>(types: &HashMap<u16, T>) -> (ids: Vec<u16>)
    ensures
        rising(ids@),
        forall|id: u16| types@.contains_key(id) <==> ids@.contains(id),
{
    let count = types.len();
    let mut ids: Vec<u16> = Vec::new();
    let mut next: usize = 0;
    proof {
        assert(present_below(types@.dom(), 0) =~= Set::<u16>::empty());
    }
    while next < ID_LIMIT && ids.len() < count
        invariant
            next <= ID_LIMIT,
            count == types@.dom().len(),
            types@.dom().finite(),
            rising(ids@),
            forall|k: int| 0 <= k < ids@.len() ==> (#[trigger] ids@[k] as int) < next,
            forall|id: u16|
                ids@.contains(id) <==> #[trigger] present_below(types@.dom(), next as int).contains(id),
            ids@.len() == present_below(types@.dom(), next as int).len(),
        decreases ID_LIMIT - next,
    {
        let id = next as u16;
        let ghost before = ids@;
        let ghost below = present_below(types@.dom(), next as int);
        proof {
            vstd::set_lib::lemma_set_subset_finite(types@.dom(), below);
        }
        if types.contains_key(&id) {
            ids.push(id);
            proof {
                assert(present_below(types@.dom(), next + 1) =~= below.insert(id));
                assert(!below.contains(id));
                assert forall|x: u16| ids@.contains(x) <==> #[trigger] present_below(
                    types@.dom(),
                    next + 1,
                ).contains(x) by {
                    if ids@.contains(x) {
                        let k = choose|k: int| 0 <= k < ids@.len() && ids@[k] == x;
                        if k < before.len() {
                            assert(before[k] == x);
                            assert(before.contains(x));
                        }
                    }
                    if present_below(types@.dom(), next + 1).contains(x) {
                        if x == id {
                            assert(ids@[ids@.len() - 1] == x);
                        } else {
                            assert(below.contains(x));
                            assert(before.contains(x));
                            let k = choose|k: int| 0 <= k < before.len() && before[k] == x;
                            assert(ids@[k] == x);
                        }
                    }
                }
            }
        } else {
            proof {
                assert(present_below(types@.dom(), next + 1) =~= below);
            }
        }
        next += 1;
    }
    proof {
        let below = present_below(types@.dom(), next as int);
        vstd::set_lib::lemma_set_subset_finite(types@.dom(), below);
        assert(below.subset_of(types@.dom()));
        if next < ID_LIMIT {
            vstd::set_lib::lemma_len_subset(below, types@.dom());
            vstd::set_lib::lemma_subset_equality(below, types@.dom());
        }
        assert(below =~= types@.dom());
    }
    ids
}

impl GameDataDump {
    /// The type of a category that stands under `id`, if there is one.
    pub open spec fn record(&self, category: DataCategory, id: u16) -> Option<TypeRecord<'_>> {
        if self.ids(category).contains(id) {
            match category {
                DataCategory::Tile => Some(TypeRecord::Tile(&self.game_data.tile_types@[id])),
                DataCategory::Ground => Some(TypeRecord::Ground(&self.game_data.ground_types@[id])),
                DataCategory::Item => Some(TypeRecord::Item(&self.game_data.item_types@[id])),
                DataCategory::VisibleThing => Some(
                    TypeRecord::VisibleThing(&self.game_data.visible_thing_types@[id]),
                ),
                DataCategory::Thing => Some(TypeRecord::Thing(&self.game_data.thing_types@[id])),
                DataCategory::ByteStream => Some(
                    TypeRecord::ByteStream(&self.game_data.byte_streams@[id]),
                ),
                DataCategory::VisualData => None,
            }
        } else {
            None
        }
    }

    /// Whether a category is as the pipeline leaves it: its ids are the first so
    /// many from 0, each type says the id it stands under, no name has two ids,
    /// no id has two names, and every named id has a type.
    pub open spec fn category_wf(&self, category: DataCategory) -> bool {
        &&& exists|n: nat| n <= ID_LIMIT && self.ids(category) == #[trigger] ids_below(n)
        &&& forall|id: u16|
            self.ids(category).contains(id) ==> (#[trigger] self.record(
                category,
                id,
            )).unwrap().spec_identifier() == id
        &&& one_to_one(self.names(category))
        &&& forall|pair: (Seq<char>, u16)| #[trigger]
            self.names(category).contains(pair) ==> self.ids(category).contains(pair.1)
    }

    /// Whether every category of the registry is as the pipeline leaves it.
    pub open spec fn wf(&self) -> bool {
        forall|category: DataCategory| #[trigger] self.category_wf(category)
    }

    /// The type of `category` that stands under `id`. No type stands under an
    /// id that this registry did not give out.
    pub fn get_by_id(&self, category: DataCategory, id: u16) -> (found: Option<TypeRecord<'_>>)
        ensures
            found == self.record(category, id),
    {
        match category {
            DataCategory::Tile => match self.game_data.tile_types.get(&id) {
                Some(t) => Some(TypeRecord::Tile(t)),
                None => None,
            },
            DataCategory::Ground => match self.game_data.ground_types.get(&id) {
                Some(t) => Some(TypeRecord::Ground(t)),
                None => None,
            },
            DataCategory::Item => match self.game_data.item_types.get(&id) {
                Some(t) => Some(TypeRecord::Item(t)),
                None => None,
            },
            DataCategory::VisibleThing => match self.game_data.visible_thing_types.get(&id) {
                Some(t) => Some(TypeRecord::VisibleThing(t)),
                None => None,
            },
            DataCategory::Thing => match self.game_data.thing_types.get(&id) {
                Some(t) => Some(TypeRecord::Thing(t)),
                None => None,
            },
            DataCategory::ByteStream => match self.game_data.byte_streams.get(&id) {
                Some(t) => Some(TypeRecord::ByteStream(t)),
                None => None,
            },
            DataCategory::VisualData => None,
        }
    }

    /// The id that `name`, written as source, colon, name, is bound to in
    /// `category`, if it is bound.
    pub fn get_id_by_name(&self, category: DataCategory, name: &str) -> (id: Option<u16>)
        ensures
            match id {
                Some(i) => self.names(category).contains((name@, i)),
                None => forall|i: u16| !self.names(category).contains((name@, i)),
            },
    {
        match category {
            DataCategory::Tile => identifier_map_get_by_left(&self.identifiers.tile_types, name),
            DataCategory::Ground => identifier_map_get_by_left(
                &self.identifiers.ground_types,
                name,
            ),
            DataCategory::Item => identifier_map_get_by_left(&self.identifiers.item_types, name),
            DataCategory::VisibleThing => identifier_map_get_by_left(
                &self.identifiers.visible_thing_types,
                name,
            ),
            DataCategory::Thing => identifier_map_get_by_left(&self.identifiers.thing_types, name),
            DataCategory::ByteStream => identifier_map_get_by_left(
                &self.identifiers.byte_streams,
                name,
            ),
            DataCategory::VisualData => None,
        }
    }

    /// The name that `id` is bound to in `category`, if it is bound.
    pub fn get_name(&self, category: DataCategory, id: u16) -> (name: Option<&String>)
        ensures
            match name {
                Some(n) => self.names(category).contains((n@, id)),
                None => forall|n: Seq<char>| !self.names(category).contains((n, id)),
            },
    {
        match category {
            DataCategory::Tile => identifier_map_get_by_right(&self.identifiers.tile_types, id),
            DataCategory::Ground => identifier_map_get_by_right(&self.identifiers.ground_types, id),
            DataCategory::Item => identifier_map_get_by_right(&self.identifiers.item_types, id),
            DataCategory::VisibleThing => identifier_map_get_by_right(
                &self.identifiers.visible_thing_types,
                id,
            ),
            DataCategory::Thing => identifier_map_get_by_right(&self.identifiers.thing_types, id),
            DataCategory::ByteStream => identifier_map_get_by_right(
                &self.identifiers.byte_streams,
                id,
            ),
            DataCategory::VisualData => None,
        }
    }

    /// The ids of `category` that have a type, from the lowest to the highest.
    pub fn ids_of(&self, category: DataCategory) -> (ids: Vec<u16>)
        ensures
            rising(ids@),
            forall|id: u16| self.ids(category).contains(id) <==> ids@.contains(id),
    {
        match category {
            DataCategory::Tile => present_ids(&self.game_data.tile_types),
            DataCategory::Ground => present_ids(&self.game_data.ground_types),
            DataCategory::Item => present_ids(&self.game_data.item_types),
            DataCategory::VisibleThing => present_ids(&self.game_data.visible_thing_types),
            DataCategory::Thing => present_ids(&self.game_data.thing_types),
            DataCategory::ByteStream => present_ids(&self.game_data.byte_streams),
            DataCategory::VisualData => {
                let ids: Vec<u16> = Vec::new();
                assert(forall|id: u16| !ids@.contains(id));
                ids
            },
        }
    }

    /// All the types of `category`, each with its id, from the lowest id to the
    /// highest.
    pub fn enumerate(&self, category: DataCategory) -> (all: Vec<(u16, TypeRecord<'_>)>)
        ensures
            forall|a: int, b: int| 0 <= a < b < all@.len() ==> all@[a].0 < all@[b].0,
            forall|k: int|
                0 <= k < all@.len() ==> self.record(category, (#[trigger] all@[k]).0) == Some(
                    all@[k].1,
                ),
            forall|id: u16|
                self.ids(category).contains(id) ==> exists|k: int|
                    0 <= k < all@.len() && (#[trigger] all@[k]).0 == id,
    {
        let ids = self.ids_of(category);
        let mut all: Vec<(u16, TypeRecord<'_>)> = Vec::new();
        let mut k: usize = 0;
        while k < ids.len()
            invariant
                k <= ids@.len(),
                all@.len() == k,
                forall|id: u16| self.ids(category).contains(id) <==> ids@.contains(id),
                forall|j: int|
                    0 <= j < k ==> (#[trigger] all@[j]).0 == ids@[j] && self.record(
                        category,
                        ids@[j],
                    ) == Some(all@[j].1),
            decreases ids@.len() - k,
        {
            let id = ids[k];
            assert(ids@.contains(id));
            match self.get_by_id(category, id) {
                Some(record) => {
                    all.push((id, record));
                },
                None => {
                    assert(false);
                },
            }
            k += 1;
        }
        proof {
            assert forall|id: u16| self.ids(category).contains(id) implies exists|k: int|
                0 <= k < all@.len() && (#[trigger] all@[k]).0 == id by {
                assert(ids@.contains(id));
                let j = choose|j: int| 0 <= j < ids@.len() && ids@[j] == id;
                assert(all@[j].0 == id);
            }
        }
        all
    }
}

/// A type that world generation can pick, more or less often.
pub trait Weighted {
    /// The weight that `world_gen_weight` gives.
    spec fn weight(&self) -> Weight;

    fn world_gen_weight(&self) -> (weight: Weight)
        ensures
            weight == self.weight(),
    ;
}

impl Weighted for TileType {
    open spec fn weight(&self) -> Weight {
        self.world_gen_weight
    }

    fn world_gen_weight(&self) -> Weight {
        self.world_gen_weight
    }
}

impl Weighted for GroundType {
    open spec fn weight(&self) -> Weight {
        self.world_gen_weight
    }

    fn world_gen_weight(&self) -> Weight {
        self.world_gen_weight
    }
}

/// The weights of types, each under the id of its type.
pub open spec fn weights_of<T: Weighted>(types: Map<u16, T>) -> Map<u16, Weight> {
    types.map_values(|t: T| t.weight())
}

/// The ids below `n` whose weight is greater than zero, each with its weight,
/// from the lowest id to the highest.
pub open spec fn weighted(weights: Map<u16, Weight>, n: int) -> Seq<(u16, Weight)>
    decreases n,
{
    if n <= 0 {
        Seq::empty()
    } else {
        let before = weighted(weights, n - 1);
        let id = (n - 1) as u16;
        if weights.contains_key(id) && weights[id].positive() {
            before.push((id, weights[id]))
        } else {
            before
        }
    }
}

proof fn lemma_weighted_gap(weights: Map<u16, Weight>, from: int, to: int)
    requires
        0 <= from <= to <= ID_LIMIT,
        forall|id: u16| from <= (id as int) < to ==> !weights.contains_key(id),
    ensures
        weighted(weights, to) == weighted(weights, from),
    decreases to - from,
{
    if from < to {
        lemma_weighted_gap(weights, from, to - 1);
        assert(!weights.contains_key((to - 1) as u16));
    }
}

/// What world generation picks from: the types with a weight greater than zero,
/// each with its id and weight, from the lowest id to the highest.
pub fn world_gen_entries<T: Weighted>(types: &MappedGameData<T>) -> (entries: Vec<(u16, Weight)>)
    ensures
        entries@ == weighted(weights_of(types@), ID_LIMIT as int),
{
    let ids = present_ids(types);
    let ghost weights = weights_of(types@);
    let mut entries: Vec<(u16, Weight)> = Vec::new();
    let mut k: usize = 0;
    let ghost mut done: int = 0;
    while k < ids.len()
        invariant
            k <= ids@.len(),
            weights == weights_of(types@),
            rising(ids@),
            forall|id: u16| types@.contains_key(id) <==> ids@.contains(id),
            0 <= done <= ID_LIMIT,
            k > 0 ==> done == ids@[k - 1] + 1,
            k == 0 ==> done == 0,
            entries@ == weighted(weights, done),
        decreases ids@.len() - k,
    {
        let id = ids[k];
        assert(ids@.contains(id));
        proof {
            assert forall|x: u16| done <= (x as int) < (id as int) implies !weights.contains_key(
                x,
            ) by {
                if types@.contains_key(x) {
                    assert(ids@.contains(x));
                    let m = choose|m: int| 0 <= m < ids@.len() && ids@[m] == x;
                    if m < k {
                        if m < k - 1 {
                            assert(ids@[m] < ids@[k - 1]);
                        }
                    } else if m > k {
                        assert(ids@[k as int] < ids@[m]);
                    }
                }
            }
            if k > 0 {
                assert(ids@[k - 1] < ids@[k as int]);
            }
            lemma_weighted_gap(weights, done, id as int);
        }
        let weight = types.get(&id).unwrap().world_gen_weight();
        if weight.is_positive() {
            entries.push((id, weight));
        }
        proof {
            done = id + 1;
        }
        k += 1;
    }
    proof {
        assert forall|x: u16| done <= (x as int) < ID_LIMIT implies !weights.contains_key(x) by {
            if types@.contains_key(x) {
                assert(ids@.contains(x));
                let m = choose|m: int| 0 <= m < ids@.len() && ids@[m] == x;
                if m < k - 1 {
                    assert(ids@[m] < ids@[k - 1]);
                }
            }
        }
        lemma_weighted_gap(weights, done, ID_LIMIT as int);
    }
    entries
}

/// Whether `entries` lists, from the lowest id to the highest, the ids whose
/// weight is greater than zero, each with its weight, and no others.
pub open spec fn lists_weighted(entries: Seq<(u16, Weight)>, weights: Map<u16, Weight>) -> bool {
    &&& forall|a: int, b: int| 0 <= a < b < entries.len() ==> entries[a].0 < entries[b].0
    &&& forall|k: int|
        0 <= k < entries.len() ==> weights.contains_key((#[trigger] entries[k]).0)
            && weights[entries[k].0] == entries[k].1 && entries[k].1.positive()
    &&& forall|id: u16|
        weights.contains_key(id) && weights[id].positive() ==> exists|k: int|
            0 <= k < entries.len() && (#[trigger] entries[k]).0 == id
}

proof fn lemma_weighted_below(weights: Map<u16, Weight>, n: int)
    requires
        0 <= n <= ID_LIMIT,
    ensures
        forall|a: int, b: int|
            0 <= a < b < weighted(weights, n).len() ==> weighted(weights, n)[a].0 < weighted(
                weights,
                n,
            )[b].0,
        forall|k: int|
            0 <= k < weighted(weights, n).len() ==> {
                let entry = #[trigger] weighted(weights, n)[k];
                (entry.0 as int) < n && weights.contains_key(entry.0) && weights[entry.0]
                    == entry.1 && entry.1.positive()
            },
        forall|id: u16|
            (id as int) < n && weights.contains_key(id) && weights[id].positive() ==> exists|
                k: int,
            |
                0 <= k < weighted(weights, n).len() && (#[trigger] weighted(weights, n)[k]).0
                    == id,
    decreases n,
{
    if n > 0 {
        lemma_weighted_below(weights, n - 1);
        let before = weighted(weights, n - 1);
        let now = weighted(weights, n);
        assert forall|id: u16|
            (id as int) < n && weights.contains_key(id) && weights[id].positive() implies exists|
            k: int,
        |
            0 <= k < now.len() && (#[trigger] now[k]).0 == id by {
            if (id as int) < n - 1 {
                let k = choose|k: int| 0 <= k < before.len() && (#[trigger] before[k]).0 == id;
                assert(now[k].0 == id);
            } else {
                assert(now[now.len() - 1].0 == id);
            }
        }
    }
}

/// The candidates of world generation are exactly the types with a weight
/// greater than zero, each once, with its own weight, in the order of the ids.
pub proof fn lemma_world_gen_entries(weights: Map<u16, Weight>)
    ensures
        lists_weighted(weighted(weights, ID_LIMIT as int), weights),
{
    lemma_weighted_below(weights, ID_LIMIT as int);
}

/// The accepted places of a category lie in the list, fall from each to the
/// next, and hold entries of that category which nothing keeps out; there are
/// never more of them than ids. As long as ids are left, every such entry is
/// accepted.
pub proof fn lemma_accepted_places(entries: Seq<UnmappedData>, category: DataCategory, n: int)
    requires
        0 <= n <= entries.len(),
    ensures
        accepted(entries, category, n).len() <= ID_LIMIT,
        forall|k: int|
            0 <= k < accepted(entries, category, n).len() ==> {
                let i = #[trigger] accepted(entries, category, n)[k];
                n <= i < entries.len() && entries[i].data.category() == category && category
                    != DataCategory::VisualData && obstacle(entries, i).is_none()
            },
        forall|a: int, b: int|
            0 <= a < b < accepted(entries, category, n).len() ==> #[trigger] accepted(
                entries,
                category,
                n,
            )[a] > #[trigger] accepted(entries, category, n)[b],
        forall|i: int|
            n <= i < entries.len() && admits(entries, category, i, 0) && accepted(
                entries,
                category,
                n,
            ).len() < ID_LIMIT ==> #[trigger] accepted(entries, category, n).contains(i),
    decreases entries.len() - n,
{
    if n < entries.len() {
        lemma_accepted_places(entries, category, n + 1);
        let earlier = accepted(entries, category, n + 1);
        let now = accepted(entries, category, n);
        assert forall|i: int|
            n <= i < entries.len() && admits(entries, category, i, 0) && now.len()
                < ID_LIMIT implies #[trigger] now.contains(i) by {
            if i == n {
                assert(admits(entries, category, n, earlier.len()));
                assert(now[now.len() - 1] == i);
            } else {
                assert(earlier.contains(i));
                let k = choose|k: int| 0 <= k < earlier.len() && earlier[k] == i;
                assert(now[k] == i);
            }
        }
    }
}

proof fn lemma_names_bound_ranks(entries: Seq<UnmappedData>, places: Seq<int>, k: int)
    requires
        0 <= k <= places.len(),
        k <= ID_LIMIT,
    ensures
        one_to_one(names_bound(entries, places, k)),
        forall|pair: (Seq<char>, u16)| #[trigger]
            names_bound(entries, places, k).contains(pair) ==> (pair.1 as int) < k,
    decreases k,
{
    if k > 0 {
        lemma_names_bound_ranks(entries, places, k - 1);
        lemma_bind_one_to_one(
            names_bound(entries, places, k - 1),
            type_key(entries[places[k - 1]].identifier),
            (k - 1) as u16,
        );
    }
}

/// What the pipeline builds is a registry in good order.
pub proof fn lemma_mapping_wf(entries: Seq<UnmappedData>, dump: GameDataDump)
    requires
        is_mapping_of(entries, dump),
    ensures
        dump.wf(),
{
    assert forall|category: DataCategory| #[trigger] dump.category_wf(category) by {
        let places = accepted(entries, category, 0);
        lemma_accepted_places(entries, category, 0);
        lemma_names_bound_ranks(entries, places, places.len() as int);
        if category == DataCategory::VisualData {
            assert(dump.ids(category) =~= ids_below(0));
        } else {
            assert(dump.ids(category) == ids_below(places.len()));
        }
    }
}

/// In a registry in good order names and ids are paired one to one: a name that
/// is bound to an id is bound to no other, that id has no other name, and a type
/// stands under it.
pub proof fn lemma_names_bijective(
    dump: GameDataDump,
    category: DataCategory,
    name: Seq<char>,
    id: u16,
)
    requires
        dump.wf(),
        dump.names(category).contains((name, id)),
    ensures
        forall|other: u16| dump.names(category).contains((name, other)) ==> other == id,
        forall|other: Seq<char>| dump.names(category).contains((other, id)) ==> other == name,
        dump.ids(category).contains(id),
{
    assert(dump.category_wf(category));
    assert forall|other: u16| dump.names(category).contains((name, other)) implies other
        == id by {
        let p = (name, id);
        let q = (name, other);
        assert(dump.names(category).contains(p) && dump.names(category).contains(q));
    }
    assert forall|other: Seq<char>| dump.names(category).contains((other, id)) implies other
        == name by {
        let p = (name, id);
        let q = (other, id);
        assert(dump.names(category).contains(p) && dump.names(category).contains(q));
    }
}

/// Whether the entries at `places` are found under names that differ from one
/// place to the next.
pub open spec fn distinct_keys(entries: Seq<UnmappedData>, places: Seq<int>) -> bool {
    forall|a: int, b: int|
        0 <= a < places.len() && 0 <= b < places.len() && a != b ==> type_key(
            entries[#[trigger] places[a]].identifier,
        ) != type_key(entries[#[trigger] places[b]].identifier)
}

proof fn lemma_names_bound_distinct(entries: Seq<UnmappedData>, places: Seq<int>, k: int)
    requires
        distinct_keys(entries, places),
        0 <= k <= places.len(),
        k <= ID_LIMIT,
    ensures
        forall|pair: (Seq<char>, u16)| #[trigger]
            names_bound(entries, places, k).contains(pair) <==> (pair.1 as int) < k && pair.0
                == type_key(entries[places[pair.1 as int]].identifier),
    decreases k,
{
    if k > 0 {
        lemma_names_bound_distinct(entries, places, k - 1);
        let before = names_bound(entries, places, k - 1);
        let key = type_key(entries[places[k - 1]].identifier);
        let id = (k - 1) as u16;
        assert forall|pair: (Seq<char>, u16)| #[trigger]
            names_bound(entries, places, k).contains(pair) <==> (pair.1 as int) < k && pair.0
                == type_key(entries[places[pair.1 as int]].identifier) by {
            if (pair.1 as int) < k - 1 && pair.0 == type_key(
                entries[places[pair.1 as int]].identifier,
            ) {
                assert(before.contains(pair));
                assert(places[pair.1 as int] == places[pair.1 as int]);
                assert(pair.0 != key);
            }
        }
    }
}

/// Where the accepted entries of a category are found under names that differ
/// from each other, every id of the category has its name, and that name leads
/// back to the id: the name of the entry that was given the id.
pub proof fn lemma_every_id_named(
    entries: Seq<UnmappedData>,
    dump: GameDataDump,
    category: DataCategory,
    id: u16,
)
    requires
        is_mapping_of(entries, dump),
        distinct_keys(entries, accepted(entries, category, 0)),
        dump.ids(category).contains(id),
    ensures
        (id as int) < accepted(entries, category, 0).len(),
        dump.names(category).contains(
            (type_key(entries[accepted(entries, category, 0)[id as int]].identifier), id),
        ),
{
    let places = accepted(entries, category, 0);
    lemma_accepted_places(entries, category, 0);
    lemma_names_bound_distinct(entries, places, places.len() as int);
    let pair = (type_key(entries[places[id as int]].identifier), id);
    assert(names_bound(entries, places, places.len() as int).contains(pair));
}

/// Two registries that were built from the same entries hold the same names
/// under the same ids, and the same types under them.
pub proof fn lemma_rebuild_equal(
    entries: Seq<UnmappedData>,
    first: GameDataDump,
    second: GameDataDump,
    category: DataCategory,
)
    requires
        is_mapping_of(entries, first),
        is_mapping_of(entries, second),
    ensures
        first.names(category) == second.names(category),
        first.ids(category) == second.ids(category),
        forall|id: u16|
            first.ids(category).contains(id) ==> first.record(category, id).unwrap()@
                == second.record(category, id).unwrap()@,
{
    lemma_accepted_places(entries, category, 0);
    assert forall|id: u16| first.ids(category).contains(id) implies first.record(
        category,
        id,
    ).unwrap()@ == second.record(category, id).unwrap()@ by {
        assert((id as int) < accepted(entries, category, 0).len());
    }
}

proof fn lemma_key_parts(a: Seq<char>, x: Seq<char>, b: Seq<char>, y: Seq<char>)
    requires
        !a.contains(':'),
        !b.contains(':'),
        a + seq![':'] + x == b + seq![':'] + y,
    ensures
        a == b,
        x == y,
{
    let left = a + seq![':'] + x;
    let right = b + seq![':'] + y;
    if a.len() < b.len() {
        assert(left[a.len() as int] == ':');
        assert(right[a.len() as int] == b[a.len() as int]);
        assert(b.contains(':'));
    }
    if b.len() < a.len() {
        assert(right[b.len() as int] == ':');
        assert(left[b.len() as int] == a[b.len() as int]);
        assert(a.contains(':'));
    }
    assert(a.len() == b.len());
    assert(left.len() == right.len());
    assert(a =~= b) by {
        assert forall|i: int| 0 <= i < a.len() implies a[i] == b[i] by {
            assert(left[i] == a[i]);
            assert(right[i] == b[i]);
        }
    }
    assert(x =~= y) by {
        assert forall|i: int| 0 <= i < x.len() implies x[i] == y[i] by {
            assert(left[a.len() + 1 + i] == x[i]);
            assert(right[b.len() + 1 + i] == y[i]);
        }
    }
}

/// Whether no source of a list holds a colon.
pub open spec fn plain_sources(entries: Seq<UnmappedData>) -> bool {
    forall|i: int| 0 <= i < entries.len() ==> !(#[trigger] entries[i]).identifier.source@.contains(':')
}

/// In a list without conflicts whose sources hold no colon, the accepted
/// entries of a category are found under names that differ from each other.
pub proof fn lemma_distinct_keys(entries: Seq<UnmappedData>, category: DataCategory)
    requires
        all_wf(entries),
        unique_identities(entries),
        plain_sources(entries),
    ensures
        distinct_keys(entries, accepted(entries, category, 0)),
{
    let places = accepted(entries, category, 0);
    lemma_accepted_places(entries, category, 0);
    assert forall|a: int, b: int|
        0 <= a < places.len() && 0 <= b < places.len() && a != b implies type_key(
        entries[#[trigger] places[a]].identifier,
    ) != type_key(entries[#[trigger] places[b]].identifier) by {
        let i = places[a];
        let j = places[b];
        assert(i != j) by {
            if a < b {
                assert(places[a] > places[b]);
            } else {
                assert(places[b] > places[a]);
            }
        }
        let first = entries[i].identifier;
        let second = entries[j].identifier;
        assert(entries[i].wf() && entries[j].wf());
        if type_key(first) == type_key(second) {
            lemma_key_parts(first.source@, first.name@, second.source@, second.name@);
            assert(same_content(entries[i], entries[j]));
        }
    }
}

/// Where the accepted entries of a category are found under names that differ
/// from each other, the registry pairs the ids and the names of that category
/// one to one and leaves none out: every id that has a type has a name, no name
/// is bound to two ids, no id has two names, and every name that is bound leads
/// to an id that has a type. So looking up the name of an id and then the id of
/// that name leads back to the id, and the other way round.
pub proof fn lemma_registry_bijection(
    entries: Seq<UnmappedData>,
    dump: GameDataDump,
    category: DataCategory,
)
    requires
        is_mapping_of(entries, dump),
        distinct_keys(entries, accepted(entries, category, 0)),
    ensures
        dump.wf(),
        forall|id: u16|
            dump.ids(category).contains(id) ==> exists|name: Seq<char>| #[trigger]
                dump.names(category).contains((name, id)),
        forall|name: Seq<char>, id: u16, other: u16|
            dump.names(category).contains((name, id)) && dump.names(category).contains(
                (name, other),
            ) ==> id == other,
        forall|name: Seq<char>, other: Seq<char>, id: u16|
            dump.names(category).contains((name, id)) && dump.names(category).contains(
                (other, id),
            ) ==> name == other,
        forall|name: Seq<char>, id: u16|
            dump.names(category).contains((name, id)) ==> dump.ids(category).contains(id),
{
    lemma_mapping_wf(entries, dump);
    assert(dump.category_wf(category));
    assert forall|id: u16| dump.ids(category).contains(id) implies exists|name: Seq<char>| #[trigger]
        dump.names(category).contains((name, id)) by {
        lemma_every_id_named(entries, dump, category, id);
    }
    assert forall|name: Seq<char>, id: u16, other: u16|
        dump.names(category).contains((name, id)) && dump.names(category).contains(
            (name, other),
        ) implies id == other by {
        lemma_names_bijective(dump, category, name, id);
    }
    assert forall|name: Seq<char>, other: Seq<char>, id: u16|
        dump.names(category).contains((name, id)) && dump.names(category).contains(
            (other, id),
        ) implies name == other by {
        lemma_names_bijective(dump, category, name, id);
    }
    assert forall|name: Seq<char>, id: u16|
        dump.names(category).contains((name, id)) implies dump.ids(category).contains(id) by {
        lemma_names_bijective(dump, category, name, id);
    }
}

/// After resolution, a list whose entries name the category of their payload and
/// whose sources hold no colon has accepted entries with names that differ, in
/// every category.
pub proof fn lemma_resolved_distinct_keys(entries: Seq<UnmappedData>, category: DataCategory)
    requires
        all_wf(entries),
        plain_sources(entries),
    ensures
        distinct_keys(resolved(entries), accepted(resolved(entries), category, 0)),
{
    let kept = resolved(entries);
    lemma_resolved_unique(entries);
    lemma_resolved_from_entries(entries);
    assert(plain_sources(kept)) by {
        assert forall|i: int| 0 <= i < kept.len() implies !(#[trigger] kept[i]).identifier.source@.contains(
            ':',
        ) by {
            assert(entries.contains(kept[i]));
            let j = choose|j: int| 0 <= j < entries.len() && entries[j] == kept[i];
            assert(!entries[j].identifier.source@.contains(':'));
        }
    }
    lemma_distinct_keys(kept, category);
}

/// A type that is shown on the map is never registered without visual data:
/// the entry behind each id of a tile, a ground, an item or a visible thing has
/// visual data of its source and name.
pub proof fn lemma_shown_types_have_visual(
    entries: Seq<UnmappedData>,
    category: DataCategory,
    k: int,
)
    requires
        category.needs_visual(),
        0 <= k < accepted(entries, category, 0).len(),
    ensures
        0 <= accepted(entries, category, 0)[k] < entries.len(),
        visual_of(entries, entries[accepted(entries, category, 0)[k]].identifier).is_some(),
{
    lemma_accepted_places(entries, category, 0);
    let i = accepted(entries, category, 0)[k];
    assert(obstacle(entries, i).is_none());
}

} // verus!
