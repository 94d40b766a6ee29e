//! Lists of named fields kept in the order of their names, and the mapping
//! from names to types that such a list stands for.

use crate::schema::SchemaType;
use crate::text::{
    lemma_precedes_connected, lemma_precedes_irreflexive, lemma_precedes_transitive, precedes,
};
use vstd::prelude::*;

verus! {

/// Whether the names of the entries go strictly upwards, so that no name
/// occurs twice.
pub open spec fn ordered(entries: Seq<(Seq<char>, SchemaType)>) -> bool {
    forall|i: int, j: int|
        0 <= i < j < entries.len() ==> precedes(
            (#[trigger] entries[i]).0,
            (#[trigger] entries[j]).0,
        )
}

/// Whether an entry has the name `name`.
pub open spec fn has_name(entries: Seq<(Seq<char>, SchemaType)>, name: Seq<char>) -> bool {
    exists|i: int| 0 <= i < entries.len() && (#[trigger] entries[i]).0 == name
}

/// The index of an entry that has the name `name`.
pub open spec fn index_of(entries: Seq<(Seq<char>, SchemaType)>, name: Seq<char>) -> int {
    choose|i: int| 0 <= i < entries.len() && (#[trigger] entries[i]).0 == name
}

/// The mapping from names to types that the entries stand for.
pub open spec fn to_map(entries: Seq<(Seq<char>, SchemaType)>) -> Map<Seq<char>, SchemaType> {
    Map::new(
        |name: Seq<char>| has_name(entries, name),
        |name: Seq<char>| entries[index_of(entries, name)].1,
    )
}

/// How many entries at the start of the list have a name that comes before
/// `name`.
pub open spec fn rank(entries: Seq<(Seq<char>, SchemaType)>, name: Seq<char>) -> int
    decreases entries.len(),
{
    if entries.len() > 0 && precedes(entries[0].0, name) {
        1 + rank(entries.drop_first(), name)
    } else {
        0
    }
}

/// The list with the field `name` set to `field`: in place of the entry of
/// that name where there is one, and else at the place that keeps the names
/// in order.
pub open spec fn placed(
    entries: Seq<(Seq<char>, SchemaType)>,
    name: Seq<char>,
    field: SchemaType,
) -> Seq<(Seq<char>, SchemaType)> {
    let at = rank(entries, name);
    if at < entries.len() && entries[at].0 == name {
        entries.update(at, (name, field))
    } else {
        entries.insert(at, (name, field))
    }
}

/// The list that comes of setting the given fields one after the other,
/// starting with no field.
pub open spec fn placed_all(given: Seq<(Seq<char>, SchemaType)>) -> Seq<(Seq<char>, SchemaType)>
    decreases given.len(),
{
    if given.len() == 0 {
        Seq::empty()
    } else {
        placed(placed_all(given.drop_last()), given.last().0, given.last().1)
    }
}

/// The rank of a name lies within the list, the names before it come before
/// the name, and the name at it does not.
pub proof fn lemma_rank(entries: Seq<(Seq<char>, SchemaType)>, name: Seq<char>)
    ensures
        0 <= rank(entries, name) <= entries.len(),
        forall|j: int| 0 <= j < rank(entries, name) ==> precedes((#[trigger] entries[j]).0, name),
        rank(entries, name) < entries.len() ==> !precedes(entries[rank(entries, name)].0, name),
    decreases entries.len(),
{
    if entries.len() > 0 && precedes(entries[0].0, name) {
        let rest = entries.drop_first();
        lemma_rank(rest, name);
        assert forall|j: int| 0 <= j < rank(entries, name) implies precedes(
            (#[trigger] entries[j]).0,
            name,
        ) by {
            if j > 0 {
                assert(entries[j] == rest[j - 1]);
            }
        }
        if rank(entries, name) < entries.len() {
            assert(entries[rank(entries, name)] == rest[rank(rest, name)]);
        }
    }
}

/// In an ordered list a name stands at one index only.
pub proof fn lemma_ordered_unique(entries: Seq<(Seq<char>, SchemaType)>, i: int, j: int)
    requires
        ordered(entries),
        0 <= i < entries.len(),
        0 <= j < entries.len(),
        entries[i].0 == entries[j].0,
    ensures
        i == j,
{
    lemma_precedes_irreflexive(entries[i].0);
}

/// The mapping of an ordered list holds each entry's type under its name.
pub proof fn lemma_to_map_entry(entries: Seq<(Seq<char>, SchemaType)>, i: int)
    requires
        ordered(entries),
        0 <= i < entries.len(),
    ensures
        to_map(entries).contains_key(entries[i].0),
        to_map(entries)[entries[i].0] == entries[i].1,
{
    let name = entries[i].0;
    assert(has_name(entries, name));
    lemma_ordered_unique(entries, i, index_of(entries, name));
}

/// Setting a field keeps the list in order.
pub proof fn lemma_placed_ordered(
    entries: Seq<(Seq<char>, SchemaType)>,
    name: Seq<char>,
    field: SchemaType,
)
    requires
        ordered(entries),
    ensures
        ordered(placed(entries, name, field)),
{
    let at = rank(entries, name);
    let after = placed(entries, name, field);
    lemma_rank(entries, name);
    if at < entries.len() && entries[at].0 == name {
        assert forall|i: int, j: int| 0 <= i < j < after.len() implies precedes(
            (#[trigger] after[i]).0,
            (#[trigger] after[j]).0,
        ) by {
            assert(after[i].0 == entries[i].0);
            assert(after[j].0 == entries[j].0);
        }
    } else {
        assert forall|i: int, j: int| 0 <= i < j < after.len() implies precedes(
            (#[trigger] after[i]).0,
            (#[trigger] after[j]).0,
        ) by {
            if j < at {
                assert(after[i] == entries[i] && after[j] == entries[j]);
            } else if j == at {
                assert(after[i] == entries[i]);
            } else {
                assert(after[j] == entries[j - 1]);
                if i < at {
                    assert(after[i] == entries[i]);
                } else if i == at {
                    // the entry at the rank does not come before the name and
                    // differs from it, so the name comes before it
                    lemma_precedes_connected(entries[at].0, name);
                    if j - 1 > at {
                        lemma_precedes_transitive(name, entries[at].0, entries[j - 1].0);
                    }
                } else {
                    assert(after[i] == entries[i - 1]);
                }
            }
        }
    }
}

/// Setting a field sets it in the mapping and leaves the other fields as
/// they were.
pub proof fn lemma_placed_map(
    entries: Seq<(Seq<char>, SchemaType)>,
    name: Seq<char>,
    field: SchemaType,
)
    requires
        ordered(entries),
    ensures
        to_map(placed(entries, name, field)) == to_map(entries).insert(name, field),
{
    let at = rank(entries, name);
    let after = placed(entries, name, field);
    let replaced = at < entries.len() && entries[at].0 == name;
    lemma_rank(entries, name);
    lemma_placed_ordered(entries, name, field);
    assert(after[at] == (name, field));
    lemma_to_map_entry(after, at);
    assert forall|other: Seq<char>| #[trigger]
        to_map(after).contains_key(other) <==> to_map(entries).insert(name, field).contains_key(
            other,
        ) by {
        if to_map(after).contains_key(other) && other != name {
            let i = index_of(after, other);
            let k = if replaced || i < at {
                i
            } else {
                i - 1
            };
            assert(entries[k] == after[i]);
            assert(has_name(entries, other));
        }
        if to_map(entries).contains_key(other) && other != name {
            let k = index_of(entries, other);
            let i = if replaced || k < at {
                k
            } else {
                k + 1
            };
            assert(after[i] == entries[k]);
            assert(has_name(after, other));
        }
    }
    assert forall|other: Seq<char>| #[trigger]
        to_map(after).contains_key(other) implies to_map(after)[other] == to_map(entries).insert(
        name,
        field,
    )[other] by {
        if other != name {
            let k = index_of(entries, other);
            let i = if replaced || k < at {
                k
            } else {
                k + 1
            };
            assert(after[i] == entries[k]);
            lemma_to_map_entry(after, i);
            lemma_to_map_entry(entries, k);
        }
    }
    assert(to_map(after) =~= to_map(entries).insert(name, field));
}

/// Setting the fields of an ordered list one after the other, starting with
/// no field, gives the list back.
pub proof fn lemma_placed_all_ordered(given: Seq<(Seq<char>, SchemaType)>)
    requires
        ordered(given),
    ensures
        placed_all(given) == given,
    decreases given.len(),
{
    if given.len() > 0 {
        let before = given.drop_last();
        let name = given.last().0;
        assert forall|i: int, j: int| 0 <= i < j < before.len() implies precedes(
            (#[trigger] before[i]).0,
            (#[trigger] before[j]).0,
        ) by {
            assert(before[i] == given[i] && before[j] == given[j]);
        }
        lemma_placed_all_ordered(before);
        lemma_rank_of_later(before, name);
        assert(before.insert(before.len() as int, given.last()) =~= given);
    } else {
        assert(given =~= Seq::empty());
    }
}

/// A name that every name of the list comes before has the list's length as
/// its rank.
pub proof fn lemma_rank_of_later(entries: Seq<(Seq<char>, SchemaType)>, name: Seq<char>)
    requires
        forall|i: int| 0 <= i < entries.len() ==> precedes((#[trigger] entries[i]).0, name),
    ensures
        rank(entries, name) == entries.len(),
    decreases entries.len(),
{
    if entries.len() > 0 {
        let rest = entries.drop_first();
        assert(precedes(entries[0].0, name));
        assert forall|i: int| 0 <= i < rest.len() implies precedes(
            (#[trigger] rest[i]).0,
            name,
        ) by {
            assert(rest[i] == entries[i + 1]);
        }
        lemma_rank_of_later(rest, name);
    }
}

} // verus!
