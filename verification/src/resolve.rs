//! Conflict resolution: of the entries that stand for the same content, only the
//! one with the highest priority is kept.

use vstd::prelude::*;
use crate::module_loading::{PreMapDump, UnmappedData, all_wf};

verus! {

/// Whether two entries stand for the same content.
pub open spec fn same_content(a: UnmappedData, b: UnmappedData) -> bool {
    a.identifier.same_identity(b.identifier)
}

/// Whether the entry at `i` is kept over the entry at `j`: it has the higher
/// priority, or the same priority and was declared later.
pub open spec fn outranks(entries: Seq<UnmappedData>, i: int, j: int) -> bool {
    entries[j].identifier.priority < entries[i].identifier.priority || (
    entries[j].identifier.priority == entries[i].identifier.priority && j < i)
}

/// Whether the entry at `i` is kept over every other entry of the same content.
pub open spec fn is_winner(entries: Seq<UnmappedData>, i: int) -> bool {
    forall|j: int|
        0 <= j < entries.len() && j != i && same_content(entries[i], #[trigger] entries[j])
            ==> outranks(entries, i, j)
}

/// The places among the first `n` whose entries are kept, in rising order.
pub open spec fn winner_indices(entries: Seq<UnmappedData>, n: int) -> Seq<int>
    decreases n,
{
    if n <= 0 {
        Seq::empty()
    } else if is_winner(entries, n - 1) {
        winner_indices(entries, n - 1).push(n - 1)
    } else {
        winner_indices(entries, n - 1)
    }
}

/// The entries among the first `n` that are kept, in the order of the list.
pub open spec fn winners<'a>(entries: Seq<UnmappedData<'a>>, n: int) -> Seq<UnmappedData<'a>>
    decreases n,
{
    if n <= 0 {
        Seq::empty()
    } else if is_winner(entries, n - 1) {
        winners(entries, n - 1).push(entries[n - 1])
    } else {
        winners(entries, n - 1)
    }
}

/// What is left of a list when its conflicts are resolved.
pub open spec fn resolved<'a>(entries: Seq<UnmappedData<'a>>) -> Seq<UnmappedData<'a>> {
    winners(entries, entries.len() as int)
}

/// Whether no two entries of a list stand for the same content.
pub open spec fn unique_identities(entries: Seq<UnmappedData>) -> bool {
    forall|a: int, b: int|
        0 <= a < entries.len() && 0 <= b < entries.len() && a != b ==> !same_content(
            #[trigger] entries[a],
            #[trigger] entries[b],
        )
}

/// Whether the entry at `i` is kept over all the other entries of its content.
fn wins(pre_map_dump: &PreMapDump, i: usize) -> (kept: bool)
    requires
        i < pre_map_dump@.len(),
    ensures
        kept == is_winner(pre_map_dump@, i as int),
{
    let current = &pre_map_dump[i].identifier;
    let mut j: usize = 0;
    while j < pre_map_dump.len()
        invariant
            i < pre_map_dump@.len(),
            j <= pre_map_dump@.len(),
            *current == pre_map_dump@[i as int].identifier,
            forall|k: int|
                0 <= k < j && k != i && same_content(pre_map_dump@[i as int], #[trigger] pre_map_dump@[k])
                    ==> outranks(pre_map_dump@, i as int, k),
        decreases pre_map_dump@.len() - j,
    {
        if j != i {
            let other = &pre_map_dump[j].identifier;
            if current.is_same_identity(other) {
                let beaten = other.priority < current.priority || (other.priority
                    == current.priority && j < i);
                if !beaten {
                    return false;
                }
            }
        }
        j += 1;
    }
    true
}

/// Resolves the conflicts of a list in place. Of the entries with the same
/// source, category and name, the one with the highest priority stays, and of
/// several with that priority the one declared last. What stays keeps its order.
pub fn filter_pre_map_dump(pre_map_dump: &mut PreMapDump)
    ensures
        final(pre_map_dump)@ == resolved(old(pre_map_dump)@),
{
    let mut kept: PreMapDump = Vec::new();
    let mut i: usize = 0;
    while i < pre_map_dump.len()
        invariant
            i <= pre_map_dump@.len(),
            pre_map_dump@ == old(pre_map_dump)@,
            kept@ == winners(pre_map_dump@, i as int),
        decreases pre_map_dump@.len() - i,
    {
        if wins(pre_map_dump, i) {
            kept.push(pre_map_dump[i].duplicate());
        }
        i += 1;
    }
    *pre_map_dump = kept;
}

/// The entries that are kept are the entries at the kept places.
pub proof fn lemma_winners_at_indices(entries: Seq<UnmappedData>, n: int)
    requires
        0 <= n <= entries.len(),
    ensures
        winners(entries, n).len() == winner_indices(entries, n).len(),
        forall|a: int|
            0 <= a < winner_indices(entries, n).len() ==> {
                let i = #[trigger] winner_indices(entries, n)[a];
                0 <= i < n && is_winner(entries, i) && winners(entries, n)[a] == entries[i]
            },
        forall|a: int, b: int|
            0 <= a < b < winner_indices(entries, n).len() ==> #[trigger] winner_indices(
                entries,
                n,
            )[a] < #[trigger] winner_indices(entries, n)[b],
        forall|i: int|
            0 <= i < n && is_winner(entries, i) ==> exists|a: int|
                0 <= a < winner_indices(entries, n).len() && #[trigger] winner_indices(
                    entries,
                    n,
                )[a] == i,
    decreases n,
{
    if n > 0 {
        lemma_winners_at_indices(entries, n - 1);
        let before = winner_indices(entries, n - 1);
        let now = winner_indices(entries, n);
        assert forall|i: int| 0 <= i < n && is_winner(entries, i) implies exists|a: int|
            0 <= a < now.len() && #[trigger] now[a] == i by {
            if i == n - 1 {
                assert(now[now.len() - 1] == i);
            } else {
                let a = choose|a: int| 0 <= a < before.len() && #[trigger] before[a] == i;
                assert(now[a] == i);
            }
        }
    }
}

/// After resolution no two entries share source, category and name.
pub proof fn lemma_resolved_unique(entries: Seq<UnmappedData>)
    ensures
        unique_identities(resolved(entries)),
{
    let n = entries.len() as int;
    lemma_winners_at_indices(entries, n);
    let kept = resolved(entries);
    let places = winner_indices(entries, n);
    assert forall|a: int, b: int|
        0 <= a < kept.len() && 0 <= b < kept.len() && a != b implies !same_content(
        #[trigger] kept[a],
        #[trigger] kept[b],
    ) by {
        let i = places[a];
        let j = places[b];
        assert(i != j) by {
            if a < b {
                assert(places[a] < places[b]);
            } else {
                assert(places[b] < places[a]);
            }
        }
        if same_content(kept[a], kept[b]) {
            assert(same_content(entries[i], entries[j]));
            assert(same_content(entries[j], entries[i]));
            assert(outranks(entries, i, j));
            assert(outranks(entries, j, i));
        }
    }
}

/// The place of the entry that is kept over the entry at `j` and over the first `n`
/// entries of its content.
pub open spec fn champion(entries: Seq<UnmappedData>, j: int, n: int) -> int
    decreases n,
{
    if n <= 0 {
        j
    } else {
        let c = champion(entries, j, n - 1);
        if n - 1 != c && same_content(entries[n - 1], entries[j]) && outranks(entries, n - 1, c) {
            n - 1
        } else {
            c
        }
    }
}

proof fn lemma_champion(entries: Seq<UnmappedData>, j: int, n: int)
    requires
        0 <= j < entries.len(),
        0 <= n <= entries.len(),
    ensures
        0 <= champion(entries, j, n) < entries.len(),
        same_content(entries[champion(entries, j, n)], entries[j]),
        champion(entries, j, n) == j || outranks(entries, champion(entries, j, n), j),
        forall|k: int|
            0 <= k < n && k != champion(entries, j, n) && same_content(
                #[trigger] entries[k],
                entries[j],
            ) ==> outranks(entries, champion(entries, j, n), k),
    decreases n,
{
    if n > 0 {
        lemma_champion(entries, j, n - 1);
    }
}

/// Every entry of the list is answered for after resolution: an entry of the same
/// source, category and name is kept, it is one of the declared ones, and no
/// declaration of that content has a higher priority than it.
pub proof fn lemma_resolved_keeps_highest(entries: Seq<UnmappedData>, j: int)
    requires
        0 <= j < entries.len(),
    ensures
        exists|a: int|
            0 <= a < resolved(entries).len() && same_content(
                #[trigger] resolved(entries)[a],
                entries[j],
            ) && entries.contains(resolved(entries)[a]) && forall|k: int|
                0 <= k < entries.len() && same_content(#[trigger] entries[k], entries[j])
                    ==> entries[k].identifier.priority <= resolved(
                    entries,
                )[a].identifier.priority,
{
    let n = entries.len() as int;
    lemma_champion(entries, j, n);
    let c = champion(entries, j, n);
    assert(is_winner(entries, c)) by {
        assert forall|k: int|
            0 <= k < entries.len() && k != c && same_content(
                entries[c],
                #[trigger] entries[k],
            ) implies outranks(entries, c, k) by {
            assert(same_content(entries[k], entries[j]));
        }
    }
    lemma_winners_at_indices(entries, n);
    let a = choose|a: int|
        0 <= a < winner_indices(entries, n).len() && #[trigger] winner_indices(entries, n)[a]
            == c;
    assert(resolved(entries)[a] == entries[c]);
    assert forall|k: int|
        0 <= k < entries.len() && same_content(
            #[trigger] entries[k],
            entries[j],
        ) implies entries[k].identifier.priority <= resolved(entries)[a].identifier.priority by {
        if k != c {
            assert(outranks(entries, c, k));
        }
    }
}

/// Resolution only drops entries: what is kept was declared, and keeps the
/// category of its payload.
pub proof fn lemma_resolved_from_entries(entries: Seq<UnmappedData>)
    ensures
        forall|a: int|
            0 <= a < resolved(entries).len() ==> entries.contains(#[trigger] resolved(entries)[a]),
        all_wf(entries) ==> all_wf(resolved(entries)),
{
    lemma_winners_at_indices(entries, entries.len() as int);
    let places = winner_indices(entries, entries.len() as int);
    assert forall|a: int| 0 <= a < resolved(entries).len() implies entries.contains(
        #[trigger] resolved(entries)[a],
    ) && (all_wf(entries) ==> resolved(entries)[a].wf()) by {
        let i = places[a];
        assert(resolved(entries)[a] == entries[i]);
    }
}

proof fn lemma_unique_all_win(entries: Seq<UnmappedData>, n: int)
    requires
        unique_identities(entries),
        0 <= n <= entries.len(),
    ensures
        winners(entries, n) == entries.take(n),
    decreases n,
{
    if n > 0 {
        lemma_unique_all_win(entries, n - 1);
        assert(is_winner(entries, n - 1));
        assert(entries.take(n - 1).push(entries[n - 1]) =~= entries.take(n));
    } else {
        assert(entries.take(0) =~= Seq::<UnmappedData>::empty());
    }
}

/// Resolving a list without conflicts changes nothing, so resolving twice gives
/// what resolving once gives.
pub proof fn lemma_resolved_idempotent(entries: Seq<UnmappedData>)
    ensures
        unique_identities(entries) ==> resolved(entries) == entries,
        resolved(resolved(entries)) == resolved(entries),
{
    if unique_identities(entries) {
        lemma_unique_all_win(entries, entries.len() as int);
        assert(entries.take(entries.len() as int) =~= entries);
    }
    lemma_resolved_unique(entries);
    let once = resolved(entries);
    lemma_unique_all_win(once, once.len() as int);
    assert(once.take(once.len() as int) =~= once);
}

} // verus!
