//! Orders of identifiers: lists without repetitions that name the keys of a map.

use crate::id::{id_values, Id};
use std::collections::HashMap;
use std::collections::HashSet;
use vstd::prelude::*;

verus! {

broadcast use vstd::std_specs::hash::group_hash_axioms;

/// An order lists the keys exactly when it has no repetitions and its
/// entries are the keys.
pub open spec fn lists_exactly(order: Seq<u128>, keys: Set<u128>) -> bool {
    order.no_duplicates() && order.to_set() == keys
}

/// Taking one entry out of an order without repetitions leaves an order
/// without repetitions, whose entries are the others.
pub proof fn lemma_order_without(order: Seq<u128>, at: int)
    requires
        order.no_duplicates(),
        0 <= at < order.len(),
    ensures
        order.remove(at).no_duplicates(),
        order.remove(at).to_set() == order.to_set().remove(order[at]),
        order.index_of(order[at]) == at,
{
    let rest = order.remove(at);
    assert forall|i: int, j: int| 0 <= i < rest.len() && 0 <= j < rest.len() && i != j implies rest[i]
        != rest[j] by {
        let from_i = if i < at { i } else { i + 1 };
        let from_j = if j < at { j } else { j + 1 };
        assert(rest[i] == order[from_i]);
        assert(rest[j] == order[from_j]);
    }
    assert forall|key: u128| rest.to_set().contains(key) <==> order.to_set().remove(
        order[at],
    ).contains(key) by {
        if rest.to_set().contains(key) {
            let i = choose|i: int| 0 <= i < rest.len() && rest[i] == key;
            let from_i = if i < at { i } else { i + 1 };
            assert(rest[i] == order[from_i]);
            assert(order.contains(key));
        }
        if order.to_set().remove(order[at]).contains(key) {
            let i = choose|i: int| 0 <= i < order.len() && order[i] == key;
            let to_i = if i < at { i } else { i - 1 };
            assert(rest[to_i] == order[i]);
            assert(rest.contains(key));
        }
    }
    assert(rest.to_set() =~= order.to_set().remove(order[at]));
    assert(order.contains(order[at]));
}

/// Putting a new entry in front of an order without repetitions gives an
/// order without repetitions, with one entry more.
pub proof fn lemma_order_with_front(order: Seq<u128>, key: u128)
    requires
        order.no_duplicates(),
        !order.contains(key),
    ensures
        order.insert(0, key).no_duplicates(),
        order.insert(0, key).to_set() == order.to_set().insert(key),
{
    let longer = order.insert(0, key);
    assert forall|i: int, j: int| 0 <= i < longer.len() && 0 <= j < longer.len() && i != j implies longer[i]
        != longer[j] by {
        if i > 0 {
            assert(longer[i] == order[i - 1]);
        }
        if j > 0 {
            assert(longer[j] == order[j - 1]);
        }
    }
    assert forall|other: u128| longer.to_set().contains(other) <==> order.to_set().insert(
        key,
    ).contains(other) by {
        if longer.to_set().contains(other) {
            let i = choose|i: int| 0 <= i < longer.len() && longer[i] == other;
            if i > 0 {
                assert(longer[i] == order[i - 1]);
                assert(order.contains(other));
            }
        }
        if order.to_set().insert(key).contains(other) {
            if other == key {
                assert(longer[0] == key);
                assert(longer.contains(other));
            } else {
                let i = choose|i: int| 0 <= i < order.len() && order[i] == other;
                assert(longer[i + 1] == order[i]);
                assert(longer.contains(other));
            }
        }
    }
    assert(longer.to_set() =~= order.to_set().insert(key));
}

/// The place of `id` in the order, if it has one.
pub fn position_of<T>(order: &Vec<Id<T>>, id: Id<T>) -> (position: Option<usize>)
    ensures
        position is Some == id_values(order@).contains(id@),
        position is Some ==> position->0 < order.len() && id_values(order@)[position->0 as int]
            == id@,
        position is Some ==> forall|earlier: int|
            0 <= earlier < position->0 ==> id_values(order@)[earlier] != id@,
{
    let mut index: usize = 0;
    while index < order.len()
        invariant
            index <= order.len(),
            forall|seen: int| 0 <= seen < index ==> id_values(order@)[seen] != id@,
        decreases order.len() - index,
    {
        if order[index].same(&id) {
            assert(id_values(order@)[index as int] == id@);
            return Some(index);
        }
        index += 1;
    }
    None
}

/// The order `base` with the entries of `more` that it does not have yet put
/// behind it, each once, in the order in which `more` names them first.
pub open spec fn extend_distinct(base: Seq<u128>, more: Seq<u128>) -> Seq<u128>
    decreases more.len(),
{
    if more.len() == 0 {
        base
    } else {
        let rest = extend_distinct(base, more.drop_last());
        if rest.contains(more.last()) {
            rest
        } else {
            rest.push(more.last())
        }
    }
}

/// Extending an order without repetition gives an order without
/// repetition that begins with the old one and names what either names.
pub proof fn lemma_extend_distinct(base: Seq<u128>, more: Seq<u128>)
    requires
        base.no_duplicates(),
    ensures
        extend_distinct(base, more).no_duplicates(),
        extend_distinct(base, more).to_set() == base.to_set().union(more.to_set()),
        base.len() <= extend_distinct(base, more).len(),
        extend_distinct(base, more).take(base.len() as int) == base,
    decreases more.len(),
{
    let result = extend_distinct(base, more);
    if more.len() == 0 {
        assert(more.to_set() =~= Set::empty());
        assert(result.to_set() =~= base.to_set().union(more.to_set()));
        assert(result.take(base.len() as int) =~= base);
    } else {
        let shorter = more.drop_last();
        let rest = extend_distinct(base, shorter);
        lemma_extend_distinct(base, shorter);
        assert(more =~= shorter.push(more.last()));
        shorter.lemma_push_to_set_commute(more.last());
        if rest.contains(more.last()) {
            assert(result.to_set() =~= base.to_set().union(more.to_set()));
        } else {
            rest.lemma_push_to_set_commute(more.last());
            assert(result.to_set() =~= base.to_set().union(more.to_set()));
            assert(result.take(base.len() as int) =~= rest.take(base.len() as int));
        }
    }
}

/// An order that already names every entry of `more` stays as it is.
pub proof fn lemma_extend_distinct_same(base: Seq<u128>, more: Seq<u128>)
    requires
        more.to_set().subset_of(base.to_set()),
    ensures
        extend_distinct(base, more) == base,
    decreases more.len(),
{
    if more.len() > 0 {
        let shorter = more.drop_last();
        assert(shorter.to_set().subset_of(base.to_set())) by {
            assert forall|key: u128| shorter.to_set().contains(key) implies base.to_set().contains(
                key,
            ) by {
                let at = choose|at: int| 0 <= at < shorter.len() && shorter[at] == key;
                assert(more[at] == key);
                assert(more.to_set().contains(key));
            }
        }
        lemma_extend_distinct_same(base, shorter);
        assert(more.to_set().contains(more.last()));
        assert(base.contains(more.last()));
    }
}

/// An order without repetition, put behind nothing, is itself.
pub proof fn lemma_extend_distinct_of_order(order: Seq<u128>)
    requires
        order.no_duplicates(),
    ensures
        extend_distinct(Seq::empty(), order) == order,
    decreases order.len(),
{
    if order.len() > 0 {
        let shorter = order.drop_last();
        lemma_extend_distinct_of_order(shorter);
        assert(!shorter.contains(order.last())) by {
            if shorter.contains(order.last()) {
                let at = choose|at: int| 0 <= at < shorter.len() && shorter[at] == order.last();
                assert(order[at] == order[order.len() - 1]);
            }
        }
        assert(order =~= shorter.push(order.last()));
    }
}

/// Puts the entries of `more` that the order does not have yet behind it,
/// each once. `seen` holds the entries of the order.
pub fn push_distinct<T>(order: &mut Vec<Id<T>>, seen: &mut HashSet<u128>, more: &Vec<Id<T>>)
    requires
        old(seen)@ == id_values(old(order)@).to_set(),
    ensures
        id_values(final(order)@) == extend_distinct(id_values(old(order)@), id_values(more@)),
        final(seen)@ == id_values(final(order)@).to_set(),
{
    let ghost base = id_values(order@);
    let ghost added = id_values(more@);
    let mut index: usize = 0;
    proof {
        assert(added.take(0) =~= Seq::empty());
    }
    while index < more.len()
        invariant
            index <= more.len(),
            added == id_values(more@),
            id_values(order@) == extend_distinct(base, added.take(index as int)),
            seen@ == id_values(order@).to_set(),
        decreases more.len() - index,
    {
        let id = more[index];
        let key = id.value();
        let ghost before = id_values(order@);
        proof {
            assert(added[index as int] == key);
            assert(added.take(index + 1).drop_last() =~= added.take(index as int));
            assert(added.take(index + 1).last() == key);
        }
        if seen.insert(key) {
            order.push(id);
            proof {
                assert(id_values(order@) =~= before.push(key));
                before.lemma_push_to_set_commute(key);
                assert(!before.contains(key));
            }
        } else {
            proof {
                assert(before.contains(key));
                assert(seen@ =~= before.to_set());
            }
        }
        index += 1;
    }
    proof {
        assert(added.take(index as int) =~= added);
    }
}

/// Whether the place `index` of the order holds a key of the map that no
/// earlier place holds.
pub open spec fn place_ok(order: Seq<u128>, keys: Set<u128>, index: int) -> bool {
    &&& keys.contains(order[index])
    &&& forall|earlier: int| 0 <= earlier < index ==> order[earlier] != order[index]
}

/// Checks that the order lists the keys of the map exactly.
pub fn covers_exactly<T, V>(order: &Vec<Id<T>>, map: &HashMap<u128, V>) -> (exact: bool)
    ensures
        exact == lists_exactly(id_values(order@), map@.dom()),
{
    let ghost keys = map@.dom();
    let ghost ids = id_values(order@);
    let count = order.len();
    if map.len() != count {
        proof {
            if lists_exactly(ids, keys) {
                ids.unique_seq_to_set();
            }
        }
        return false;
    }
    let mut index: usize = 0;
    while index < count
        invariant
            count == order.len(),
            index <= count,
            keys == map@.dom(),
            ids == id_values(order@),
            forall|done: int| 0 <= done < index ==> place_ok(ids, keys, done),
        decreases count - index,
    {
        let id = order[index];
        assert(ids[index as int] == id@);
        if !map.contains_key(&id.value()) {
            proof {
                assert(ids.to_set().contains(ids[index as int]));
            }
            return false;
        }
        let mut earlier: usize = 0;
        while earlier < index
            invariant
                count == order.len(),
                index < count,
                earlier <= index,
                ids == id_values(order@),
                ids[index as int] == id@,
                forall|seen: int| 0 <= seen < earlier ==> ids[seen] != id@,
            decreases index - earlier,
        {
            if order[earlier].same(&id) {
                assert(ids[earlier as int] == ids[index as int]);
                return false;
            }
            earlier += 1;
        }
        index += 1;
    }
    proof {
        assert(ids.no_duplicates()) by {
            assert forall|i: int, j: int| 0 <= i < ids.len() && 0 <= j < ids.len() && i != j implies ids[i]
                != ids[j] by {
                if i < j {
                    assert(place_ok(ids, keys, j));
                } else {
                    assert(place_ok(ids, keys, i));
                }
            }
        }
        assert(ids.to_set().subset_of(keys)) by {
            assert forall|key: u128| ids.to_set().contains(key) implies keys.contains(key) by {
                let at = choose|at: int| 0 <= at < ids.len() && ids[at] == key;
                assert(place_ok(ids, keys, at));
            }
        }
        ids.unique_seq_to_set();
        vstd::set_lib::lemma_subset_equality(ids.to_set(), keys);
    }
    true
}

} // verus!
