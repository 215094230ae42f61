//! Whether a document already holds what is to be stored.

use crate::config::document::{
    distinct_keys, distinct_value_keys, find_entry, find_value, flat, has_key, has_value_key,
    is_flat, same_value, valid_item, valid_table, values_equal, ItemEntry, TomlItem, TomlTable,
    TomlValue, ValueEntry,
};
use vstd::prelude::*;

verus! {

/// Whether a table holds the keys and values of `f` and no others, whatever
/// their order and form. Lists of tables have their entries in the same order.
pub open spec fn table_holds(e: TomlTable, f: TomlTable) -> bool
    decreases e,
{
    &&& forall|p: int|
        0 <= p < e.entries@.len() ==> has_key(f.entries@, (#[trigger] e.entries@[p]).key@)
    &&& forall|j: int|
        0 <= j < f.entries@.len() ==> has_key(e.entries@, (#[trigger] f.entries@[j]).key@)
    &&& forall|p: int, j: int|
        #![trigger e.entries@[p], f.entries@[j]]
        0 <= p < e.entries@.len() && 0 <= j < f.entries@.len() && e.entries@[p].key@
            == f.entries@[j].key@ ==> item_holds(e.entries@[p].item, f.entries@[j].item)
}

/// Whether an item holds the values of `f`. A section may stand as an inline
/// table.
pub open spec fn item_holds(e: TomlItem, f: TomlItem) -> bool
    decreases e,
{
    match (e, f) {
        (TomlItem::Table(x), TomlItem::Table(y)) => table_holds(x, y),
        (TomlItem::Tables(x), TomlItem::Tables(y)) => {
            &&& x@.len() == y@.len()
            &&& forall|j: int| 0 <= j < x@.len() ==> table_holds(#[trigger] x@[j], y@[j])
        },
        (TomlItem::Value(x), TomlItem::Value(y)) => same_value(x, y),
        (TomlItem::Value(TomlValue::Inline(x)), TomlItem::Table(y)) => {
            flat(y.entries@) && inline_holds(x@, y.entries@)
        },
        _ => false,
    }
}

/// Whether an inline table holds the keys and values of the flat table `f`.
pub open spec fn inline_holds(e: Seq<ValueEntry>, f: Seq<ItemEntry>) -> bool {
    &&& forall|p: int| 0 <= p < e.len() ==> has_key(f, (#[trigger] e[p]).key@)
    &&& forall|j: int| 0 <= j < f.len() ==> has_value_key(e, (#[trigger] f[j]).key@)
    &&& forall|p: int, j: int|
        #![trigger e[p], f[j]]
        0 <= p < e.len() && 0 <= j < f.len() && e[p].key@ == f[j].key@ ==> same_value(
            e[p].value,
            f[j].item->Value_0,
        )
}

/// Whether the table on disk already holds exactly the keys and values of `f`.
pub fn already_holds(e: &TomlTable, f: &TomlTable) -> (r: bool)
    requires
        valid_table(*e),
        valid_table(*f),
    ensures
        r == table_holds(*e, *f),
    decreases e,
{
    let mut p: usize = 0;
    while p < e.entries.len()
        invariant
            p <= e.entries@.len(),
            valid_table(*e),
            valid_table(*f),
            forall|q: int|
                0 <= q < p ==> has_key(f.entries@, (#[trigger] e.entries@[q]).key@),
            forall|q: int, j: int|
                #![trigger e.entries@[q], f.entries@[j]]
                0 <= q < p && 0 <= j < f.entries@.len() && e.entries@[q].key@
                    == f.entries@[j].key@ ==> item_holds(
                    e.entries@[q].item,
                    f.entries@[j].item,
                ),
        decreases e.entries@.len() - p,
    {
        match find_entry(&f.entries, e.entries[p].key.as_str()) {
            None => {
                assert(!has_key(f.entries@, e.entries@[p as int].key@));
                return false;
            },
            Some(j) => {
                assert(valid_item(e.entries@[p as int].item));
                assert(valid_item(f.entries@[j as int].item));
                assert(decreases_to!(e.entries => e.entries@[p as int]));
                assert(decreases_to!(e.entries@[p as int] => e.entries@[p as int].item));
                if !item_already_holds(&e.entries[p].item, &f.entries[j].item) {
                    assert(e.entries@[p as int].key@ == f.entries@[j as int].key@);
                    return false;
                }
                assert(has_key(f.entries@, e.entries@[p as int].key@));
                assert forall|k: int|
                    0 <= k < f.entries@.len() && e.entries@[p as int].key@ == (
                    #[trigger] f.entries@[k]).key@ implies k == j by {
                    assert(distinct_keys(f.entries@));
                    assert(f.entries@[k].key@ == f.entries@[j as int].key@);
                }
            },
        }
        p += 1;
    }
    let mut j: usize = 0;
    while j < f.entries.len()
        invariant
            j <= f.entries@.len(),
            forall|q: int|
                0 <= q < j ==> has_key(e.entries@, (#[trigger] f.entries@[q]).key@),
        decreases f.entries@.len() - j,
    {
        match find_entry(&e.entries, f.entries[j].key.as_str()) {
            None => {
                assert(!has_key(e.entries@, f.entries@[j as int].key@));
                return false;
            },
            Some(_) => {
                assert(has_key(e.entries@, f.entries@[j as int].key@));
            },
        }
        j += 1;
    }
    true
}

fn item_already_holds(e: &TomlItem, f: &TomlItem) -> (r: bool)
    requires
        valid_item(*e),
        valid_item(*f),
    ensures
        r == item_holds(*e, *f),
    decreases e,
{
    match (e, f) {
        (TomlItem::Table(x), TomlItem::Table(y)) => already_holds(x, y),
        (TomlItem::Tables(x), TomlItem::Tables(y)) => lists_hold(x, y),
        (TomlItem::Value(x), TomlItem::Value(y)) => values_equal(x, y),
        (TomlItem::Value(TomlValue::Inline(x)), TomlItem::Table(y)) => {
            is_flat(&y.entries) && inline_already_holds(x, &y.entries)
        },
        _ => false,
    }
}

fn lists_hold(x: &Vec<TomlTable>, y: &Vec<TomlTable>) -> (r: bool)
    requires
        forall|i: int| 0 <= i < x@.len() ==> valid_table(#[trigger] x@[i]),
        forall|i: int| 0 <= i < y@.len() ==> valid_table(#[trigger] y@[i]),
    ensures
        r == (x@.len() == y@.len() && forall|j: int|
            0 <= j < x@.len() ==> table_holds(#[trigger] x@[j], y@[j])),
    decreases x,
{
    if x.len() != y.len() {
        return false;
    }
    let mut j: usize = 0;
    while j < x.len()
        invariant
            j <= x@.len() == y@.len(),
            forall|i: int| 0 <= i < x@.len() ==> valid_table(#[trigger] x@[i]),
            forall|i: int| 0 <= i < y@.len() ==> valid_table(#[trigger] y@[i]),
            forall|q: int| 0 <= q < j ==> table_holds(#[trigger] x@[q], y@[q]),
        decreases x@.len() - j,
    {
        assert(decreases_to!(x => x@[j as int]));
        if !already_holds(&x[j], &y[j]) {
            assert(!table_holds(x@[j as int], y@[j as int]));
            return false;
        }
        j += 1;
    }
    true
}

fn inline_already_holds(e: &Vec<ValueEntry>, f: &Vec<ItemEntry>) -> (r: bool)
    requires
        distinct_value_keys(e@),
        distinct_keys(f@),
        flat(f@),
    ensures
        r == inline_holds(e@, f@),
{
    let mut p: usize = 0;
    while p < e.len()
        invariant
            p <= e@.len(),
            distinct_keys(f@),
            flat(f@),
            forall|q: int| 0 <= q < p ==> has_key(f@, (#[trigger] e@[q]).key@),
            forall|q: int, j: int|
                #![trigger e@[q], f@[j]]
                0 <= q < p && 0 <= j < f@.len() && e@[q].key@ == f@[j].key@ ==> same_value(
                    e@[q].value,
                    f@[j].item->Value_0,
                ),
        decreases e@.len() - p,
    {
        match find_entry(f, e[p].key.as_str()) {
            None => {
                assert(!has_key(f@, e@[p as int].key@));
                return false;
            },
            Some(j) => {
                assert(f@[j as int].item is Value);
                let same = match &f[j].item {
                    TomlItem::Value(v) => values_equal(&e[p].value, v),
                    _ => false,
                };
                if !same {
                    assert(e@[p as int].key@ == f@[j as int].key@);
                    return false;
                }
                assert(has_key(f@, e@[p as int].key@));
                assert forall|k: int|
                    0 <= k < f@.len() && e@[p as int].key@ == (
                    #[trigger] f@[k]).key@ implies k == j by {
                    assert(f@[k].key@ == f@[j as int].key@);
                }
            },
        }
        p += 1;
    }
    let mut j: usize = 0;
    while j < f.len()
        invariant
            j <= f@.len(),
            forall|q: int| 0 <= q < j ==> has_value_key(e@, (#[trigger] f@[q]).key@),
        decreases f@.len() - j,
    {
        match find_value(e, f[j].key.as_str()) {
            None => {
                assert(!has_value_key(e@, f@[j as int].key@));
                return false;
            },
            Some(k) => {
                assert(e@[k as int].key@ == f@[j as int].key@);
            },
        }
        j += 1;
    }
    true
}

} // verus!
