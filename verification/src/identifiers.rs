//! The two-way lookup between the names of content types and their numeric ids.
//!
//! The lookup itself is `bimap::BiMap`. Verus does not read that crate, so this
//! file says what its operations do to the pairs that a map holds, and the rest
//! of the library reasons from those statements alone.

use vstd::prelude::*;

verus! {

/// `bimap::BiHashMap`, carried through as it is: nothing inside it is looked at.
#[verifier::external_type_specification]
#[verifier::external_body]
#[verifier::reject_recursive_types(L)]
#[verifier::reject_recursive_types(R)]
#[verifier::reject_recursive_types(LS)]
#[verifier::reject_recursive_types(RS)]
pub struct ExBiHashMap<L, R, LS, RS>(bimap::BiHashMap<L, R, LS, RS>);

/// A lookup between names (left) and ids (right).
pub type IdentifierMap = bimap::BiMap<String, u16>;

/// The left-right pairs that a lookup holds, each name taken as its characters.
pub uninterp spec fn identifier_pairs(m: IdentifierMap) -> Set<(Seq<char>, u16)>;

/// The pairs that are left when `name` and `id` are bound to each other: every pair
/// that held either of them is gone, and the new pair is there.
pub open spec fn bind(pairs: Set<(Seq<char>, u16)>, name: Seq<char>, id: u16) -> Set<(Seq<char>, u16)> {
    pairs.filter(|p: (Seq<char>, u16)| p.0 != name && p.1 != id).insert((name, id))
}

/// No name has two ids and no id has two names.
pub open spec fn one_to_one(pairs: Set<(Seq<char>, u16)>) -> bool {
    forall|p: (Seq<char>, u16), q: (Seq<char>, u16)|
        #![trigger pairs.contains(p), pairs.contains(q)]
        pairs.contains(p) && pairs.contains(q) && (p.0 == q.0 || p.1 == q.1) ==> p == q
}

/// Calls `BiHashMap::new`: the new map holds no pair.
#[verifier::external_body]
pub(crate) fn identifier_map_new() -> (m: IdentifierMap)
    ensures
        identifier_pairs(m) == Set::<(Seq<char>, u16)>::empty(),
{
    bimap::BiMap::new()
}

/// Calls `BiHashMap::insert`, which first removes the pair of `name` and the pair of
/// `id`, if there are such, and then adds the pair `(name, id)`.
#[verifier::external_body]
pub(crate) fn identifier_map_insert(m: &mut IdentifierMap, name: String, id: u16)
    ensures
        identifier_pairs(*final(m)) == bind(identifier_pairs(*old(m)), name@, id),
{
    m.insert(name, id);
}

/// Calls `BiHashMap::get_by_left`: the id that is paired with `name`, if any.
#[verifier::external_body]
pub(crate) fn identifier_map_get_by_left(m: &IdentifierMap, name: &str) -> (id: Option<u16>)
    ensures
        match id {
            Some(i) => identifier_pairs(*m).contains((name@, i)),
            None => forall|i: u16| !identifier_pairs(*m).contains((name@, i)),
        },
{
    m.get_by_left(name).copied()
}

/// Calls `BiHashMap::get_by_right`: the name that is paired with `id`, if any.
#[verifier::external_body]
pub(crate) fn identifier_map_get_by_right(m: &IdentifierMap, id: u16) -> (name: Option<&String>)
    ensures
        match name {
            Some(n) => identifier_pairs(*m).contains((n@, id)),
            None => forall|n: Seq<char>| !identifier_pairs(*m).contains((n, id)),
        },
{
    m.get_by_right(&id)
}

/// Binding a name to an id keeps a one-to-one set of pairs one-to-one.
pub proof fn lemma_bind_one_to_one(pairs: Set<(Seq<char>, u16)>, name: Seq<char>, id: u16)
    requires
        one_to_one(pairs),
    ensures
        one_to_one(bind(pairs, name, id)),
        bind(pairs, name, id).contains((name, id)),
{
}

} // verus!
