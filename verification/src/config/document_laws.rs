//! What merging keeps: the merged document holds the fresh values and nothing
//! else, and merging the same values once more changes nothing.

use crate::config::document::{
    distinct_keys, distinct_value_keys, entry_name_of, first_value, flat, gains_value, has_key,
    has_value_key, holds, inline_merged, item_merged, kept_keys, kept_value_keys, listed_merged,
    name_from, named_from, new_keys, new_value_keys, partner, partners, plan_keys, same_value,
    table_merged, valid_item, valid_table, value_plan_keys, ItemAction, ItemEntry, ListedTable,
    TablePlan, TomlItem, TomlTable, TomlValue, ValueAction, ValueEntry, ValuePlan,
};
use crate::config::unchanged::{item_holds, table_holds};
use crate::ieee::is_nan;
use vstd::prelude::*;

verus! {

/// Whether `r` is the table that the plan `m` makes of `e`, taking what is new
/// from `f`.
pub open spec fn table_outcome(e: TomlTable, f: TomlTable, m: TablePlan, r: TomlTable) -> bool
    decreases r,
{
    &&& r.implicit == m.implicit
    &&& r.entries@.len() == m.entries@.len()
    &&& forall|p: int|
        0 <= p < r.entries@.len() ==> (#[trigger] r.entries@[p]).key@ == m.entries@[p].key@
    &&& forall|p: int, i: int, j: int|
        #![trigger r.entries@[p], e.entries@[i], f.entries@[j]]
        0 <= p < r.entries@.len() && 0 <= i < e.entries@.len() && 0 <= j < f.entries@.len()
            && r.entries@[p].key@ == e.entries@[i].key@ && r.entries@[p].key@ == f.entries@[j].key@
            ==> item_outcome(
            e.entries@[i].item,
            f.entries@[j].item,
            m.entries@[p].action,
            r.entries@[p].item,
        )
    &&& forall|p: int, j: int|
        #![trigger r.entries@[p], f.entries@[j]]
        0 <= p < r.entries@.len() && 0 <= j < f.entries@.len() && !has_key(
            e.entries@,
            r.entries@[p].key@,
        ) && r.entries@[p].key@ == f.entries@[j].key@ ==> r.entries@[p].item == f.entries@[j].item
}

/// Whether `r` is the item that the action `a` makes of `e`, taking what is
/// new from `f`.
pub open spec fn item_outcome(e: TomlItem, f: TomlItem, a: ItemAction, r: TomlItem) -> bool
    decreases r,
{
    match a {
        ItemAction::Keep => r == e,
        ItemAction::Change => r == f,
        ItemAction::Fresh => r == f,
        ItemAction::Table(m) => match (e, f, r) {
            (TomlItem::Table(x), TomlItem::Table(y), TomlItem::Table(z)) => table_outcome(
                x,
                y,
                m,
                z,
            ),
            _ => false,
        },
        ItemAction::Tables(v) => match (e, f, r) {
            (TomlItem::Tables(x), TomlItem::Tables(y), TomlItem::Tables(z)) => {
                &&& z@.len() == v@.len()
                &&& forall|j: int|
                    0 <= j < z@.len() ==> match v@[j] {
                        ListedTable::Existing(k, m) => table_outcome(
                            x@[k as int],
                            y@[j],
                            m,
                            #[trigger] z@[j],
                        ),
                        ListedTable::Fresh => z@[j] == y@[j],
                    }
            },
            _ => false,
        },
        ItemAction::Inline(v) => match (e, f, r) {
            (
                TomlItem::Value(TomlValue::Inline(x)),
                TomlItem::Table(y),
                TomlItem::Value(TomlValue::Inline(z)),
            ) => inline_outcome(x@, y.entries@, v@, z@),
            _ => false,
        },
    }
}

/// Whether `r` is the inline table that the plan `v` makes of `e`.
pub open spec fn inline_outcome(
    e: Seq<ValueEntry>,
    f: Seq<ItemEntry>,
    v: Seq<ValuePlan>,
    r: Seq<ValueEntry>,
) -> bool {
    &&& r.len() == v.len()
    &&& forall|p: int| 0 <= p < r.len() ==> (#[trigger] r[p]).key@ == v[p].key@
    &&& forall|p: int, i: int, j: int|
        #![trigger r[p], e[i], f[j]]
        0 <= p < r.len() && 0 <= i < e.len() && 0 <= j < f.len() && r[p].key@ == e[i].key@
            && r[p].key@ == f[j].key@ ==> r[p].value == (match v[p].action {
            ValueAction::Keep => e[i].value,
            _ => f[j].item->Value_0,
        })
    &&& forall|p: int, j: int|
        #![trigger r[p], f[j]]
        0 <= p < r.len() && 0 <= j < f.len() && !has_value_key(e, r[p].key@) && r[p].key@
            == f[j].key@ ==> r[p].value == f[j].item->Value_0
}

/// Whether a value stands for `f`: it is the same whatever its form, or `f`
/// itself. Only a double that is not a number differs from itself.
pub open spec fn value_agrees(r: TomlValue, f: TomlValue) -> bool {
    same_value(r, f) || r == f
}

/// Whether a table holds the keys and values of `f` and no others, whatever
/// their order and form.
pub open spec fn table_agrees(r: TomlTable, f: TomlTable) -> bool
    decreases r,
{
    &&& forall|p: int|
        0 <= p < r.entries@.len() ==> has_key(f.entries@, (#[trigger] r.entries@[p]).key@)
    &&& forall|j: int|
        0 <= j < f.entries@.len() ==> has_key(r.entries@, (#[trigger] f.entries@[j]).key@)
    &&& forall|p: int, j: int|
        #![trigger r.entries@[p], f.entries@[j]]
        0 <= p < r.entries@.len() && 0 <= j < f.entries@.len() && r.entries@[p].key@
            == f.entries@[j].key@ ==> item_agrees(r.entries@[p].item, f.entries@[j].item)
}

/// Whether an item holds the values of `f`. A section may stand as an inline
/// table.
pub open spec fn item_agrees(r: TomlItem, f: TomlItem) -> bool
    decreases r,
{
    match (r, f) {
        (TomlItem::Table(x), TomlItem::Table(y)) => table_agrees(x, y),
        (TomlItem::Tables(x), TomlItem::Tables(y)) => {
            &&& x@.len() == y@.len()
            &&& forall|j: int| 0 <= j < x@.len() ==> table_agrees(#[trigger] x@[j], y@[j])
        },
        (TomlItem::Value(x), TomlItem::Value(y)) => value_agrees(x, y),
        (TomlItem::Value(TomlValue::Inline(x)), TomlItem::Table(y)) => {
            flat(y.entries@) && inline_agrees(x@, y.entries@)
        },
        _ => false,
    }
}

/// Whether an inline table holds the keys and values of the flat table `f`.
pub open spec fn inline_agrees(r: Seq<ValueEntry>, f: Seq<ItemEntry>) -> bool {
    &&& forall|p: int| 0 <= p < r.len() ==> has_key(f, (#[trigger] r[p]).key@)
    &&& forall|j: int| 0 <= j < f.len() ==> has_value_key(r, (#[trigger] f[j]).key@)
    &&& forall|p: int, j: int|
        #![trigger r[p], f[j]]
        0 <= p < r.len() && 0 <= j < f.len() && r[p].key@ == f[j].key@ ==> value_agrees(
            r[p].value,
            f[j].item->Value_0,
        )
}

/// Whether every double in a value is a number, and no inline table in it has
/// a key twice.
pub open spec fn regular_value(v: TomlValue) -> bool
    decreases v,
{
    match v {
        TomlValue::Float(b) => !is_nan(b),
        TomlValue::Array(x) => forall|i: int|
            0 <= i < x@.len() ==> regular_value(#[trigger] x@[i]),
        TomlValue::Inline(x) => {
            &&& distinct_value_keys(x@)
            &&& forall|i: int| 0 <= i < x@.len() ==> regular_value((#[trigger] x@[i]).value)
        },
        _ => true,
    }
}

/// Whether every value in an item is regular.
pub open spec fn regular_item(item: TomlItem) -> bool
    decreases item,
{
    match item {
        TomlItem::Value(v) => regular_value(v),
        TomlItem::Table(t) => regular_table(t),
        TomlItem::Tables(v) => forall|i: int|
            0 <= i < v@.len() ==> regular_table(#[trigger] v@[i]),
    }
}

/// Whether every value in a table is regular.
pub open spec fn regular_table(t: TomlTable) -> bool
    decreases t,
{
    forall|i: int| 0 <= i < t.entries@.len() ==> regular_item((#[trigger] t.entries@[i]).item)
}

proof fn value_same_as_itself(v: TomlValue)
    requires
        regular_value(v),
    ensures
        same_value(v, v),
    decreases v,
{
    match v {
        TomlValue::Array(x) => {
            assert forall|i: int| 0 <= i < x@.len() implies same_value(#[trigger] x@[i], x@[i]) by {
                assert(decreases_to!(x => x@[i]));
                value_same_as_itself(x@[i]);
            }
        },
        TomlValue::Inline(x) => {
            assert forall|i: int| 0 <= i < x@.len() implies holds(x@, #[trigger] x@[i]) by {
                assert(decreases_to!(x => x@[i]));
                value_same_as_itself(x@[i].value);
                assert(first_value(x@, i));
            }
        },
        _ => {},
    }
}

proof fn item_agrees_with_itself(f: TomlItem)
    requires
        valid_item(f),
    ensures
        item_agrees(f, f),
    decreases f,
{
    match f {
        TomlItem::Value(_) => {},
        TomlItem::Table(t) => table_agrees_with_itself(t),
        TomlItem::Tables(v) => {
            assert forall|j: int| 0 <= j < v@.len() implies table_agrees(
                #[trigger] v@[j],
                v@[j],
            ) by {
                assert(decreases_to!(v => v@[j]));
                table_agrees_with_itself(v@[j]);
            }
        },
    }
}

proof fn table_agrees_with_itself(f: TomlTable)
    requires
        valid_table(f),
    ensures
        table_agrees(f, f),
    decreases f,
{
    assert forall|p: int, j: int|
        #![trigger f.entries@[p], f.entries@[j]]
        0 <= p < f.entries@.len() && 0 <= j < f.entries@.len() && f.entries@[p].key@
            == f.entries@[j].key@ implies item_agrees(f.entries@[p].item, f.entries@[j].item) by {
        assert(p == j);
        assert(decreases_to!(f.entries => f.entries@[p]));
        item_agrees_with_itself(f.entries@[p].item);
    }
}

/// The keys that stay are those of the table on disk that the fresh one has.
pub proof fn kept_keys_members(e: Seq<ItemEntry>, f: Seq<ItemEntry>, n: nat)
    requires
        n <= e.len(),
    ensures
        forall|k: Seq<char>|
            #[trigger] kept_keys(e, f, n).contains(k) <==> (has_key(f, k) && exists|i: int|
                0 <= i < n && (#[trigger] e[i]).key@ == k),
    decreases n,
{
    if n > 0 {
        kept_keys_members(e, f, (n - 1) as nat);
        let before = kept_keys(e, f, (n - 1) as nat);
        let now = kept_keys(e, f, n);
        assert forall|k: Seq<char>|
            #[trigger] now.contains(k) <==> (has_key(f, k) && exists|i: int|
                0 <= i < n && (#[trigger] e[i]).key@ == k) by {
            if now.contains(k) {
                let q = choose|q: int| 0 <= q < now.len() && now[q] == k;
                if q < before.len() {
                    assert(before[q] == k);
                    assert(before.contains(k));
                } else {
                    assert(e[n - 1].key@ == k);
                }
            }
            if has_key(f, k) && exists|i: int| 0 <= i < n && (#[trigger] e[i]).key@ == k {
                let i = choose|i: int| 0 <= i < n && (#[trigger] e[i]).key@ == k;
                if i < n - 1 {
                    assert(before.contains(k));
                    let q = choose|q: int| 0 <= q < before.len() && before[q] == k;
                    assert(now[q] == k);
                } else {
                    assert(now[before.len() as int] == k);
                }
            }
        }
    }
}

/// The keys that are new are those of the fresh table that the one on disk
/// lacks.
pub proof fn new_keys_members(e: Seq<ItemEntry>, f: Seq<ItemEntry>, n: nat)
    requires
        n <= f.len(),
    ensures
        forall|k: Seq<char>|
            #[trigger] new_keys(e, f, n).contains(k) <==> (!has_key(e, k) && exists|i: int|
                0 <= i < n && (#[trigger] f[i]).key@ == k),
    decreases n,
{
    if n > 0 {
        new_keys_members(e, f, (n - 1) as nat);
        let before = new_keys(e, f, (n - 1) as nat);
        let now = new_keys(e, f, n);
        assert forall|k: Seq<char>|
            #[trigger] now.contains(k) <==> (!has_key(e, k) && exists|i: int|
                0 <= i < n && (#[trigger] f[i]).key@ == k) by {
            if now.contains(k) {
                let q = choose|q: int| 0 <= q < now.len() && now[q] == k;
                if q < before.len() {
                    assert(before[q] == k);
                    assert(before.contains(k));
                } else {
                    assert(f[n - 1].key@ == k);
                }
            }
            if !has_key(e, k) && exists|i: int| 0 <= i < n && (#[trigger] f[i]).key@ == k {
                let i = choose|i: int| 0 <= i < n && (#[trigger] f[i]).key@ == k;
                if i < n - 1 {
                    assert(before.contains(k));
                    let q = choose|q: int| 0 <= q < before.len() && before[q] == k;
                    assert(now[q] == k);
                } else {
                    assert(now[before.len() as int] == k);
                }
            }
        }
    }
}

/// A merged table has exactly the keys of the fresh one.
proof fn plan_has_fresh_keys(e: TomlTable, f: TomlTable, m: TablePlan)
    requires
        table_merged(e, f, m),
    ensures
        forall|p: int|
            0 <= p < m.entries@.len() ==> has_key(f.entries@, (#[trigger] m.entries@[p]).key@),
        forall|j: int|
            0 <= j < f.entries@.len() ==> exists|p: int|
                0 <= p < m.entries@.len() && (#[trigger] m.entries@[p]).key@ == (
                #[trigger] f.entries@[j]).key@,
{
    let ek = e.entries@;
    let fk = f.entries@;
    kept_keys_members(ek, fk, ek.len());
    new_keys_members(ek, fk, fk.len());
    let kept = kept_keys(ek, fk, ek.len());
    let new = new_keys(ek, fk, fk.len());
    let all = plan_keys(m.entries@);
    assert(all == kept + new && all.len() == m.entries@.len());
    assert forall|p: int| 0 <= p < m.entries@.len() implies has_key(
        fk,
        (#[trigger] m.entries@[p]).key@,
    ) by {
        let k = m.entries@[p].key@;
        assert(all[p] == k);
        if p < kept.len() {
            assert(kept[p] == k);
            assert(kept.contains(k));
        } else {
            assert(new[p - kept.len()] == k);
            assert(new.contains(k));
            let i = choose|i: int| 0 <= i < fk.len() && (#[trigger] fk[i]).key@ == k;
        }
    }
    assert forall|j: int| 0 <= j < fk.len() implies exists|p: int|
        0 <= p < m.entries@.len() && (#[trigger] m.entries@[p]).key@ == (#[trigger] fk[j]).key@ by {
        let k = fk[j].key@;
        assert(has_key(fk, k));
        if has_key(ek, k) {
            let i = choose|i: int| 0 <= i < ek.len() && (#[trigger] ek[i]).key@ == k;
            assert(kept.contains(k));
            let q = choose|q: int| 0 <= q < kept.len() && kept[q] == k;
            assert(all[q] == k);
            assert(m.entries@[q].key@ == k);
        } else {
            assert(new.contains(k));
            let q = choose|q: int| 0 <= q < new.len() && new[q] == k;
            assert(all[kept.len() + q] == k);
            assert(m.entries@[kept.len() + q].key@ == k);
        }
    }
}

/// The merged document holds exactly the keys and values of the fresh one: the
/// file mirrors the configuration.
pub proof fn merged_table_mirrors_fresh(e: TomlTable, f: TomlTable, m: TablePlan, r: TomlTable)
    requires
        valid_table(e),
        valid_table(f),
        table_merged(e, f, m),
        table_outcome(e, f, m, r),
    ensures
        table_agrees(r, f),
    decreases r,
{
    plan_has_fresh_keys(e, f, m);
    assert forall|p: int| 0 <= p < r.entries@.len() implies has_key(
        f.entries@,
        (#[trigger] r.entries@[p]).key@,
    ) by {
        assert(m.entries@[p].key@ == r.entries@[p].key@);
    }
    assert forall|j: int| 0 <= j < f.entries@.len() implies has_key(
        r.entries@,
        (#[trigger] f.entries@[j]).key@,
    ) by {
        let p = choose|p: int|
            0 <= p < m.entries@.len() && (#[trigger] m.entries@[p]).key@ == f.entries@[j].key@;
        assert(r.entries@[p].key@ == f.entries@[j].key@);
    }
    assert forall|p: int, j: int|
        #![trigger r.entries@[p], f.entries@[j]]
        0 <= p < r.entries@.len() && 0 <= j < f.entries@.len() && r.entries@[p].key@
            == f.entries@[j].key@ implies item_agrees(r.entries@[p].item, f.entries@[j].item) by {
        let k = r.entries@[p].key@;
        assert(decreases_to!(r.entries => r.entries@[p]));
        assert(m.entries@[p].key@ == k);
        if has_key(e.entries@, k) {
            let i = choose|i: int| 0 <= i < e.entries@.len() && (#[trigger] e.entries@[i]).key@ == k;
            assert(valid_item(e.entries@[i].item));
            assert(valid_item(f.entries@[j].item));
            merged_item_mirrors_fresh(
                e.entries@[i].item,
                f.entries@[j].item,
                m.entries@[p].action,
                r.entries@[p].item,
            );
        } else {
            assert(valid_item(f.entries@[j].item));
            item_agrees_with_itself(f.entries@[j].item);
        }
    }
}

proof fn merged_item_mirrors_fresh(e: TomlItem, f: TomlItem, a: ItemAction, r: TomlItem)
    requires
        valid_item(e),
        valid_item(f),
        item_merged(e, f, a),
        item_outcome(e, f, a, r),
    ensures
        item_agrees(r, f),
    decreases r,
{
    match (e, f) {
        (TomlItem::Table(x), TomlItem::Table(y)) => {
            let m = a->Table_0;
            merged_table_mirrors_fresh(x, y, m, r->Table_0);
        },
        (TomlItem::Tables(x), TomlItem::Tables(y)) => {
            let v = a->Tables_0;
            let z = r->Tables_0;
            assert forall|j: int| 0 <= j < z@.len() implies table_agrees(
                #[trigger] z@[j],
                y@[j],
            ) by {
                assert(decreases_to!(z => z@[j]));
                assert(listed_merged(x, y@[j], partners(x@, y@, y@.len())[j], v@[j]));
                assert(valid_table(y@[j]));
                match v@[j] {
                    ListedTable::Existing(k, m) => {
                        assert(valid_table(x@[k as int]));
                        merged_table_mirrors_fresh(x@[k as int], y@[j], m, z@[j]);
                    },
                    ListedTable::Fresh => {
                        table_agrees_with_itself(y@[j]);
                    },
                }
            }
        },
        (TomlItem::Value(x), TomlItem::Value(y)) => {},
        (TomlItem::Value(TomlValue::Inline(x)), TomlItem::Table(y)) => {
            if flat(y.entries@) {
                let v = a->Inline_0;
                let z = (r->Value_0)->Inline_0;
                merged_inline_mirrors_fresh(x@, y, v@, z@);
            } else {
                item_agrees_with_itself(f);
            }
        },
        _ => {
            item_agrees_with_itself(f);
        },
    }
}

proof fn merged_inline_mirrors_fresh(
    e: Seq<ValueEntry>,
    f: TomlTable,
    v: Seq<ValuePlan>,
    r: Seq<ValueEntry>,
)
    requires
        flat(f.entries@),
        inline_merged(e, f.entries@, v),
        inline_outcome(e, f.entries@, v, r),
    ensures
        inline_agrees(r, f.entries@),
{
    let fk = f.entries@;
    kept_value_keys_members(e, fk, e.len());
    new_value_keys_members(e, fk, fk.len());
    let kept = kept_value_keys(e, fk, e.len());
    let new = new_value_keys(e, fk, fk.len());
    let all = value_plan_keys(v);
    assert(all == kept + new && all.len() == v.len());
    assert forall|p: int| 0 <= p < r.len() implies has_key(fk, (#[trigger] r[p]).key@) by {
        let k = v[p].key@;
        assert(all[p] == k);
        if p < kept.len() {
            assert(kept[p] == k);
            assert(kept.contains(k));
        } else {
            assert(new[p - kept.len()] == k);
            assert(new.contains(k));
        }
    }
    assert forall|j: int| 0 <= j < fk.len() implies has_value_key(r, (#[trigger] fk[j]).key@) by {
        let k = fk[j].key@;
        assert(has_key(fk, k));
        if has_value_key(e, k) {
            let i = choose|i: int| 0 <= i < e.len() && (#[trigger] e[i]).key@ == k;
            assert(kept.contains(k));
            let q = choose|q: int| 0 <= q < kept.len() && kept[q] == k;
            assert(all[q] == k);
            assert(r[q].key@ == k);
        } else {
            assert(new.contains(k));
            let q = choose|q: int| 0 <= q < new.len() && new[q] == k;
            assert(all[kept.len() + q] == k);
            assert(r[kept.len() + q].key@ == k);
        }
    }
    assert forall|p: int, j: int|
        #![trigger r[p], fk[j]]
        0 <= p < r.len() && 0 <= j < fk.len() && r[p].key@ == fk[j].key@ implies value_agrees(
        r[p].value,
        fk[j].item->Value_0,
    ) by {
        let k = r[p].key@;
        assert(v[p].key@ == k);
        assert(fk[j].item is Value);
        if has_value_key(e, k) {
            let i = choose|i: int| 0 <= i < e.len() && (#[trigger] e[i]).key@ == k;
            assert(v[p].key@ == e[i].key@);
        }
    }
}

/// The keys of an inline table that stay are those that the fresh one has.
pub proof fn kept_value_keys_members(e: Seq<ValueEntry>, f: Seq<ItemEntry>, n: nat)
    requires
        n <= e.len(),
    ensures
        forall|k: Seq<char>|
            #[trigger] kept_value_keys(e, f, n).contains(k) <==> (has_key(f, k) && exists|i: int|
                0 <= i < n && (#[trigger] e[i]).key@ == k),
    decreases n,
{
    if n > 0 {
        kept_value_keys_members(e, f, (n - 1) as nat);
        let before = kept_value_keys(e, f, (n - 1) as nat);
        let now = kept_value_keys(e, f, n);
        assert forall|k: Seq<char>|
            #[trigger] now.contains(k) <==> (has_key(f, k) && exists|i: int|
                0 <= i < n && (#[trigger] e[i]).key@ == k) by {
            if now.contains(k) {
                let q = choose|q: int| 0 <= q < now.len() && now[q] == k;
                if q < before.len() {
                    assert(before[q] == k);
                    assert(before.contains(k));
                } else {
                    assert(e[n - 1].key@ == k);
                }
            }
            if has_key(f, k) && exists|i: int| 0 <= i < n && (#[trigger] e[i]).key@ == k {
                let i = choose|i: int| 0 <= i < n && (#[trigger] e[i]).key@ == k;
                if i < n - 1 {
                    assert(before.contains(k));
                    let q = choose|q: int| 0 <= q < before.len() && before[q] == k;
                    assert(now[q] == k);
                } else {
                    assert(now[before.len() as int] == k);
                }
            }
        }
    }
}

/// The keys that are new to an inline table are those that it lacks.
pub proof fn new_value_keys_members(e: Seq<ValueEntry>, f: Seq<ItemEntry>, n: nat)
    requires
        n <= f.len(),
    ensures
        forall|k: Seq<char>|
            #[trigger] new_value_keys(e, f, n).contains(k) <==> (!has_value_key(e, k) && exists|
                i: int,
            |
                0 <= i < n && (#[trigger] f[i]).key@ == k),
    decreases n,
{
    if n > 0 {
        new_value_keys_members(e, f, (n - 1) as nat);
        let before = new_value_keys(e, f, (n - 1) as nat);
        let now = new_value_keys(e, f, n);
        assert forall|k: Seq<char>|
            #[trigger] now.contains(k) <==> (!has_value_key(e, k) && exists|i: int|
                0 <= i < n && (#[trigger] f[i]).key@ == k) by {
            if now.contains(k) {
                let q = choose|q: int| 0 <= q < now.len() && now[q] == k;
                if q < before.len() {
                    assert(before[q] == k);
                    assert(before.contains(k));
                } else {
                    assert(f[n - 1].key@ == k);
                }
            }
            if !has_value_key(e, k) && exists|i: int| 0 <= i < n && (#[trigger] f[i]).key@ == k {
                let i = choose|i: int| 0 <= i < n && (#[trigger] f[i]).key@ == k;
                if i < n - 1 {
                    assert(before.contains(k));
                    let q = choose|q: int| 0 <= q < before.len() && before[q] == k;
                    assert(now[q] == k);
                } else {
                    assert(now[before.len() as int] == k);
                }
            }
        }
    }
}

/// Whether a plan leaves a table as it is: every key in its place, and every
/// value in its form. A value may be replaced by itself.
pub open spec fn table_unchanged(e: TomlTable, f: TomlTable, m: TablePlan) -> bool
    decreases e,
{
    &&& m.implicit == e.implicit
    &&& m.entries@.len() == e.entries@.len()
    &&& forall|p: int|
        0 <= p < e.entries@.len() ==> m.entries@[p].key@ == (#[trigger] e.entries@[p]).key@
    &&& forall|p: int, j: int|
        #![trigger e.entries@[p], f.entries@[j]]
        0 <= p < e.entries@.len() && 0 <= j < f.entries@.len() && e.entries@[p].key@
            == f.entries@[j].key@ ==> item_unchanged(
            e.entries@[p].item,
            f.entries@[j].item,
            m.entries@[p].action,
        )
}

/// Whether an action leaves an item as it is.
pub open spec fn item_unchanged(e: TomlItem, f: TomlItem, a: ItemAction) -> bool
    decreases e,
{
    match (e, f, a) {
        (TomlItem::Value(_), _, ItemAction::Keep) => true,
        (TomlItem::Value(x), TomlItem::Value(y), ItemAction::Change) => x == y,
        (TomlItem::Table(x), TomlItem::Table(y), ItemAction::Table(m)) => table_unchanged(x, y, m),
        (TomlItem::Tables(x), TomlItem::Tables(y), ItemAction::Tables(v)) => {
            &&& v@.len() == x@.len() == y@.len()
            &&& forall|j: int|
                0 <= j < x@.len() ==> v@[j] is Existing && v@[j]->Existing_0 == j
                    && table_unchanged(#[trigger] x@[j], y@[j], v@[j]->Existing_1)
        },
        (
            TomlItem::Value(TomlValue::Inline(x)),
            TomlItem::Table(y),
            ItemAction::Inline(v),
        ) => inline_unchanged(x@, y.entries@, v@),
        _ => false,
    }
}

/// Whether a plan leaves an inline table as it is.
pub open spec fn inline_unchanged(
    e: Seq<ValueEntry>,
    f: Seq<ItemEntry>,
    v: Seq<ValuePlan>,
) -> bool {
    &&& v.len() == e.len()
    &&& forall|p: int| 0 <= p < e.len() ==> v[p].key@ == (#[trigger] e[p]).key@
    &&& forall|p: int, j: int|
        #![trigger e[p], f[j]]
        0 <= p < e.len() && 0 <= j < f.len() && e[p].key@ == f[j].key@ ==> (v[p].action
            == ValueAction::Keep || v[p].action == ValueAction::Change && e[p].value
            == f[j].item->Value_0)
}

proof fn all_kept(e: Seq<ItemEntry>, f: Seq<ItemEntry>, n: nat)
    requires
        n <= e.len(),
        forall|p: int| 0 <= p < e.len() ==> has_key(f, (#[trigger] e[p]).key@),
    ensures
        kept_keys(e, f, n) == Seq::new(n, |i: int| e[i].key@),
    decreases n,
{
    if n > 0 {
        all_kept(e, f, (n - 1) as nat);
        assert(has_key(f, e[n - 1].key@));
        assert(kept_keys(e, f, n) =~= Seq::new(n, |i: int| e[i].key@));
    } else {
        assert(kept_keys(e, f, n) =~= Seq::new(n, |i: int| e[i].key@));
    }
}

proof fn none_new(e: Seq<ItemEntry>, f: Seq<ItemEntry>, n: nat)
    requires
        n <= f.len(),
        forall|j: int| 0 <= j < f.len() ==> has_key(e, (#[trigger] f[j]).key@),
    ensures
        new_keys(e, f, n) == Seq::<Seq<char>>::empty(),
    decreases n,
{
    if n > 0 {
        none_new(e, f, (n - 1) as nat);
        assert(has_key(e, f[n - 1].key@));
    }
}

proof fn all_values_kept(e: Seq<ValueEntry>, f: Seq<ItemEntry>, n: nat)
    requires
        n <= e.len(),
        forall|p: int| 0 <= p < e.len() ==> has_key(f, (#[trigger] e[p]).key@),
    ensures
        kept_value_keys(e, f, n) == Seq::new(n, |i: int| e[i].key@),
    decreases n,
{
    if n > 0 {
        all_values_kept(e, f, (n - 1) as nat);
        assert(has_key(f, e[n - 1].key@));
        assert(kept_value_keys(e, f, n) =~= Seq::new(n, |i: int| e[i].key@));
    } else {
        assert(kept_value_keys(e, f, n) =~= Seq::new(n, |i: int| e[i].key@));
    }
}

proof fn no_values_new(e: Seq<ValueEntry>, f: Seq<ItemEntry>, n: nat)
    requires
        n <= f.len(),
        forall|j: int| 0 <= j < f.len() ==> has_value_key(e, (#[trigger] f[j]).key@),
    ensures
        new_value_keys(e, f, n) == Seq::<Seq<char>>::empty(),
    decreases n,
{
    if n > 0 {
        no_values_new(e, f, (n - 1) as nat);
        assert(has_value_key(e, f[n - 1].key@));
    }
}

/// Merging values into a document that already holds them changes nothing.
pub proof fn merging_the_same_changes_nothing(e: TomlTable, f: TomlTable, m: TablePlan)
    requires
        valid_table(e),
        valid_table(f),
        table_agrees(e, f),
        table_merged(e, f, m),
    ensures
        table_unchanged(e, f, m),
    decreases e,
{
    let ek = e.entries@;
    let fk = f.entries@;
    all_kept(ek, fk, ek.len());
    none_new(ek, fk, fk.len());
    let all = plan_keys(m.entries@);
    assert(all =~= Seq::new(ek.len(), |i: int| ek[i].key@));
    assert(m.entries@.len() == all.len());
    assert(!gains_value(ek, fk));
    assert forall|p: int| 0 <= p < ek.len() implies m.entries@[p].key@ == (
    #[trigger] ek[p]).key@ by {
        assert(all[p] == ek[p].key@);
    }
    assert forall|p: int, j: int|
        #![trigger ek[p], fk[j]]
        0 <= p < ek.len() && 0 <= j < fk.len() && ek[p].key@ == fk[j].key@ implies item_unchanged(
        ek[p].item,
        fk[j].item,
        m.entries@[p].action,
    ) by {
        assert(m.entries@[p].key@ == ek[p].key@);
        assert(decreases_to!(e.entries => e.entries@[p]));
        assert(valid_item(ek[p].item));
        assert(valid_item(fk[j].item));
        same_item_unchanged(ek[p].item, fk[j].item, m.entries@[p].action);
    }
}

proof fn same_item_unchanged(e: TomlItem, f: TomlItem, a: ItemAction)
    requires
        valid_item(e),
        valid_item(f),
        item_agrees(e, f),
        item_merged(e, f, a),
    ensures
        item_unchanged(e, f, a),
    decreases e,
{
    match (e, f) {
        (TomlItem::Table(x), TomlItem::Table(y)) => {
            merging_the_same_changes_nothing(x, y, a->Table_0);
        },
        (TomlItem::Tables(x), TomlItem::Tables(y)) => {
            let v = a->Tables_0;
            same_partners(x@, y@, y@.len());
            assert forall|j: int| 0 <= j < x@.len() implies v@[j] is Existing && v@[j]->Existing_0
                == j && table_unchanged(#[trigger] x@[j], y@[j], v@[j]->Existing_1) by {
                assert(decreases_to!(x => x@[j]));
                assert(listed_merged(x, y@[j], partners(x@, y@, y@.len())[j], v@[j]));
                assert(valid_table(x@[j]));
                assert(valid_table(y@[j]));
                let m = v@[j]->Existing_1;
                merging_the_same_changes_nothing(x@[j], y@[j], m);
            }
        },
        (TomlItem::Value(x), TomlItem::Value(y)) => {},
        (TomlItem::Value(TomlValue::Inline(x)), TomlItem::Table(y)) => {
            let v = a->Inline_0;
            let fk = y.entries@;
            all_values_kept(x@, fk, x@.len());
            no_values_new(x@, fk, fk.len());
            let all = value_plan_keys(v@);
            assert(all =~= Seq::new(x@.len(), |i: int| x@[i].key@));
            assert forall|p: int| 0 <= p < x@.len() implies v@[p].key@ == (
            #[trigger] x@[p]).key@ by {
                assert(all[p] == x@[p].key@);
            }
            assert forall|p: int, j: int|
                #![trigger x@[p], fk[j]]
                0 <= p < x@.len() && 0 <= j < fk.len() && x@[p].key@ == fk[j].key@ implies (
            v@[p].action == ValueAction::Keep || v@[p].action == ValueAction::Change && x@[p].value
                == fk[j].item->Value_0) by {
                assert(v@[p].key@ == fk[j].key@);
            }
        },
        _ => {},
    }
}

/// Whether two documents are the same: the same keys in the same order, with
/// the same items.
pub open spec fn table_same(a: TomlTable, b: TomlTable) -> bool
    decreases a,
{
    &&& a.implicit == b.implicit
    &&& a.entries@.len() == b.entries@.len()
    &&& forall|p: int|
        0 <= p < a.entries@.len() ==> (#[trigger] a.entries@[p]).key@ == b.entries@[p].key@
            && item_same(a.entries@[p].item, b.entries@[p].item)
}

/// Whether two items are the same.
pub open spec fn item_same(a: TomlItem, b: TomlItem) -> bool
    decreases a,
{
    match (a, b) {
        (TomlItem::Table(x), TomlItem::Table(y)) => table_same(x, y),
        (TomlItem::Tables(x), TomlItem::Tables(y)) => {
            &&& x@.len() == y@.len()
            &&& forall|j: int| 0 <= j < x@.len() ==> table_same(#[trigger] x@[j], y@[j])
        },
        (TomlItem::Value(TomlValue::Inline(x)), TomlItem::Value(TomlValue::Inline(y))) => {
            &&& x@.len() == y@.len()
            &&& forall|p: int|
                0 <= p < x@.len() ==> (#[trigger] x@[p]).key@ == y@[p].key@ && x@[p].value
                    == y@[p].value
        },
        (TomlItem::Value(x), TomlItem::Value(y)) => x == y,
        _ => false,
    }
}

proof fn unchanged_table_is_same(e: TomlTable, f: TomlTable, m: TablePlan, r: TomlTable)
    requires
        table_agrees(e, f),
        table_unchanged(e, f, m),
        table_outcome(e, f, m, r),
    ensures
        table_same(e, r),
    decreases e,
{
    assert forall|p: int| 0 <= p < e.entries@.len() implies (#[trigger] e.entries@[p]).key@
        == r.entries@[p].key@ && item_same(e.entries@[p].item, r.entries@[p].item) by {
        assert(r.entries@[p].key@ == m.entries@[p].key@);
        assert(has_key(f.entries@, e.entries@[p].key@));
        let j = choose|j: int|
            0 <= j < f.entries@.len() && (#[trigger] f.entries@[j]).key@ == e.entries@[p].key@;
        assert(decreases_to!(e.entries => e.entries@[p]));
        unchanged_item_is_same(
            e.entries@[p].item,
            f.entries@[j].item,
            m.entries@[p].action,
            r.entries@[p].item,
        );
    }
}

proof fn item_same_as_itself(e: TomlItem)
    ensures
        item_same(e, e),
    decreases e,
{
    match e {
        TomlItem::Table(x) => table_same_as_itself(x),
        TomlItem::Tables(x) => {
            assert forall|j: int| 0 <= j < x@.len() implies table_same(#[trigger] x@[j], x@[j]) by {
                assert(decreases_to!(x => x@[j]));
                table_same_as_itself(x@[j]);
            }
        },
        TomlItem::Value(_) => {},
    }
}

proof fn table_same_as_itself(e: TomlTable)
    ensures
        table_same(e, e),
    decreases e,
{
    assert forall|p: int| 0 <= p < e.entries@.len() implies item_same(
        (#[trigger] e.entries@[p]).item,
        e.entries@[p].item,
    ) by {
        assert(decreases_to!(e.entries => e.entries@[p]));
        item_same_as_itself(e.entries@[p].item);
    }
}

proof fn unchanged_item_is_same(e: TomlItem, f: TomlItem, a: ItemAction, r: TomlItem)
    requires
        item_agrees(e, f),
        item_unchanged(e, f, a),
        item_outcome(e, f, a, r),
    ensures
        item_same(e, r),
    decreases e,
{
    match (e, f, a) {
        (TomlItem::Table(x), TomlItem::Table(y), ItemAction::Table(m)) => {
            unchanged_table_is_same(x, y, m, r->Table_0);
        },
        (TomlItem::Tables(x), TomlItem::Tables(y), ItemAction::Tables(v)) => {
            let z = r->Tables_0;
            assert forall|j: int| 0 <= j < x@.len() implies table_same(#[trigger] x@[j], z@[j]) by {
                assert(decreases_to!(x => x@[j]));
                assert(table_unchanged(x@[j], y@[j], v@[j]->Existing_1));
                assert(table_outcome(x@[j], y@[j], v@[j]->Existing_1, z@[j]));
                unchanged_table_is_same(x@[j], y@[j], v@[j]->Existing_1, z@[j]);
            }
        },
        (
            TomlItem::Value(TomlValue::Inline(x)),
            TomlItem::Table(y),
            ItemAction::Inline(v),
        ) => {
            let z = (r->Value_0)->Inline_0;
            let fk = y.entries@;
            assert forall|p: int| 0 <= p < x@.len() implies (#[trigger] x@[p]).key@ == z@[p].key@
                && x@[p].value == z@[p].value by {
                assert(z@[p].key@ == v@[p].key@);
                assert(has_key(fk, x@[p].key@));
                let j = choose|j: int|
                    0 <= j < fk.len() && (#[trigger] fk[j]).key@ == x@[p].key@;
                assert(z@[p].key@ == fk[j].key@);
            }
        },
        _ => {
            assert(r == e);
            item_same_as_itself(e);
        },
    }
}

/// The name of a list entry is the text under its key.
pub proof fn name_of_entry(t: Seq<ItemEntry>, i: int, k: int)
    requires
        distinct_keys(t),
        0 <= k <= i < t.len(),
        t[i].key@ == "name"@,
    ensures
        name_from(t, k) == (match t[i].item {
            TomlItem::Value(TomlValue::Text(s)) => Some(s@),
            _ => None,
        }),
    decreases i - k,
{
    if k < i {
        assert(t[k].key@ != t[i].key@);
        name_of_entry(t, i, k + 1);
    }
}

proof fn no_name(t: Seq<ItemEntry>, k: int)
    requires
        0 <= k,
        !has_key(t, "name"@),
    ensures
        name_from(t, k) is None,
    decreases t.len() - k,
{
    if k < t.len() {
        assert(t[k].key@ != "name"@);
        no_name(t, k + 1);
    }
}

proof fn same_name(x: TomlTable, y: TomlTable)
    requires
        valid_table(x),
        valid_table(y),
        table_agrees(x, y),
    ensures
        entry_name_of(x) == entry_name_of(y),
{
    if has_key(x.entries@, "name"@) {
        let i = choose|i: int|
            0 <= i < x.entries@.len() && (#[trigger] x.entries@[i]).key@ == "name"@;
        assert(has_key(y.entries@, x.entries@[i].key@));
        let j = choose|j: int|
            0 <= j < y.entries@.len() && (#[trigger] y.entries@[j]).key@ == x.entries@[i].key@;
        assert(item_agrees(x.entries@[i].item, y.entries@[j].item));
        name_of_entry(x.entries@, i, 0);
        name_of_entry(y.entries@, j, 0);
    } else {
        assert(!has_key(y.entries@, "name"@)) by {
            if has_key(y.entries@, "name"@) {
                let j = choose|j: int|
                    0 <= j < y.entries@.len() && (#[trigger] y.entries@[j]).key@ == "name"@;
                assert(has_key(x.entries@, y.entries@[j].key@));
            }
        }
        no_name(x.entries@, 0);
        no_name(y.entries@, 0);
    }
}

/// Skipping used entries, the first entry with the name of the `j`-th is the
/// `j`-th, where all before it are used.
proof fn named_is_own(e: Seq<TomlTable>, name: Seq<char>, used: Seq<Option<int>>, j: int, i: int)
    requires
        0 <= i <= j < e.len(),
        entry_name_of(e[j]) == Some(name),
        !used.contains(Some(j)),
        forall|q: int| 0 <= q < j ==> used.contains(Some(q)),
    ensures
        named_from(e, name, used, i) == Some(j),
    decreases j - i,
{
    if i < j {
        assert(used.contains(Some(i)));
        named_is_own(e, name, used, j, i + 1);
    }
}

proof fn same_partners(e: Seq<TomlTable>, f: Seq<TomlTable>, n: nat)
    requires
        n <= f.len() == e.len(),
        forall|i: int| 0 <= i < e.len() ==> valid_table(#[trigger] e[i]),
        forall|i: int| 0 <= i < f.len() ==> valid_table(#[trigger] f[i]),
        forall|j: int| 0 <= j < e.len() ==> table_agrees(#[trigger] e[j], f[j]),
    ensures
        partners(e, f, n) == Seq::new(n, |i: int| Some(i)),
    decreases n,
{
    if n > 0 {
        same_partners(e, f, (n - 1) as nat);
        let used = partners(e, f, (n - 1) as nat);
        let j = n - 1;
        assert forall|q: int| 0 <= q < j implies used.contains(Some(q)) by {
            assert(used[q] == Some(q));
        }
        assert(!used.contains(Some(j)));
        assert(table_agrees(e[j], f[j]));
        same_name(e[j], f[j]);
        match entry_name_of(f[j]) {
            Some(name) => named_is_own(e, name, used, j, 0),
            None => {},
        }
        assert(partners(e, f, n) =~= Seq::new(n, |i: int| Some(i)));
    } else {
        assert(partners(e, f, n) =~= Seq::new(n, |i: int| Some(i)));
    }
}

/// No key stays twice.
pub proof fn kept_keys_distinct(e: Seq<ItemEntry>, f: Seq<ItemEntry>, n: nat)
    requires
        n <= e.len(),
        distinct_keys(e),
    ensures
        kept_keys(e, f, n).no_duplicates(),
    decreases n,
{
    if n > 0 {
        kept_keys_distinct(e, f, (n - 1) as nat);
        kept_keys_members(e, f, (n - 1) as nat);
        let before = kept_keys(e, f, (n - 1) as nat);
        if before.contains(e[n - 1].key@) {
            let i = choose|i: int|
                0 <= i < n - 1 && (#[trigger] e[i]).key@ == e[n - 1].key@;
            assert(e[i].key@ != e[n - 1].key@);
        }
        push_distinct(before, e[n - 1].key@);
    }
}

/// No key is new twice.
pub proof fn new_keys_distinct(e: Seq<ItemEntry>, f: Seq<ItemEntry>, n: nat)
    requires
        n <= f.len(),
        distinct_keys(f),
    ensures
        new_keys(e, f, n).no_duplicates(),
    decreases n,
{
    if n > 0 {
        new_keys_distinct(e, f, (n - 1) as nat);
        new_keys_members(e, f, (n - 1) as nat);
        let before = new_keys(e, f, (n - 1) as nat);
        if before.contains(f[n - 1].key@) {
            let i = choose|i: int|
                0 <= i < n - 1 && (#[trigger] f[i]).key@ == f[n - 1].key@;
            assert(f[i].key@ != f[n - 1].key@);
        }
        push_distinct(before, f[n - 1].key@);
    }
}

/// No key of an inline table stays twice.
pub proof fn kept_value_keys_distinct(e: Seq<ValueEntry>, f: Seq<ItemEntry>, n: nat)
    requires
        n <= e.len(),
        distinct_value_keys(e),
    ensures
        kept_value_keys(e, f, n).no_duplicates(),
    decreases n,
{
    if n > 0 {
        kept_value_keys_distinct(e, f, (n - 1) as nat);
        kept_value_keys_members(e, f, (n - 1) as nat);
        let before = kept_value_keys(e, f, (n - 1) as nat);
        if before.contains(e[n - 1].key@) {
            let i = choose|i: int|
                0 <= i < n - 1 && (#[trigger] e[i]).key@ == e[n - 1].key@;
            assert(e[i].key@ != e[n - 1].key@);
        }
        push_distinct(before, e[n - 1].key@);
    }
}

/// No key is new to an inline table twice.
pub proof fn new_value_keys_distinct(e: Seq<ValueEntry>, f: Seq<ItemEntry>, n: nat)
    requires
        n <= f.len(),
        distinct_keys(f),
    ensures
        new_value_keys(e, f, n).no_duplicates(),
    decreases n,
{
    if n > 0 {
        new_value_keys_distinct(e, f, (n - 1) as nat);
        new_value_keys_members(e, f, (n - 1) as nat);
        let before = new_value_keys(e, f, (n - 1) as nat);
        if before.contains(f[n - 1].key@) {
            let i = choose|i: int|
                0 <= i < n - 1 && (#[trigger] f[i]).key@ == f[n - 1].key@;
            assert(f[i].key@ != f[n - 1].key@);
        }
        push_distinct(before, f[n - 1].key@);
    }
}

proof fn push_distinct(s: Seq<Seq<char>>, k: Seq<char>)
    requires
        s.no_duplicates(),
    ensures
        !s.contains(k) ==> s.push(k).no_duplicates(),
{
    if !s.contains(k) {
        assert forall|i: int, j: int| 0 <= i < s.push(k).len() && 0 <= j < s.push(k).len() && i
            != j implies s.push(k)[i] != s.push(k)[j] by {
            if i < s.len() {
                assert(s.contains(s[i]));
            }
            if j < s.len() {
                assert(s.contains(s[j]));
            }
        }
    }
}

proof fn concat_distinct(a: Seq<Seq<char>>, b: Seq<Seq<char>>)
    requires
        a.no_duplicates(),
        b.no_duplicates(),
        forall|k: Seq<char>| #[trigger] a.contains(k) ==> !b.contains(k),
    ensures
        (a + b).no_duplicates(),
{
    assert forall|i: int, j: int| 0 <= i < (a + b).len() && 0 <= j < (a + b).len() && i
        != j implies (a + b)[i] != (a + b)[j] by {
        if i < a.len() && j >= a.len() {
            assert(a.contains(a[i]));
            assert(b.contains(b[j - a.len()]));
        }
        if j < a.len() && i >= a.len() {
            assert(a.contains(a[j]));
            assert(b.contains(b[i - a.len()]));
        }
    }
}

/// A merged document has no key twice.
proof fn merged_table_valid(e: TomlTable, f: TomlTable, m: TablePlan, r: TomlTable)
    requires
        valid_table(e),
        valid_table(f),
        table_merged(e, f, m),
        table_outcome(e, f, m, r),
    ensures
        valid_table(r),
    decreases r,
{
    let ek = e.entries@;
    let fk = f.entries@;
    kept_keys_members(ek, fk, ek.len());
    new_keys_members(ek, fk, fk.len());
    kept_keys_distinct(ek, fk, ek.len());
    new_keys_distinct(ek, fk, fk.len());
    let kept = kept_keys(ek, fk, ek.len());
    let new = new_keys(ek, fk, fk.len());
    let all = plan_keys(m.entries@);
    assert forall|k: Seq<char>| #[trigger] kept.contains(k) implies !new.contains(k) by {
        let i = choose|i: int| 0 <= i < ek.len() && (#[trigger] ek[i]).key@ == k;
        assert(has_key(ek, k));
    }
    concat_distinct(kept, new);
    assert forall|i: int, j: int| 0 <= i < j < r.entries@.len() implies (
    #[trigger] r.entries@[i]).key@ != (#[trigger] r.entries@[j]).key@ by {
        assert(all[i] == r.entries@[i].key@);
        assert(all[j] == r.entries@[j].key@);
    }
    plan_has_fresh_keys(e, f, m);
    assert forall|p: int| 0 <= p < r.entries@.len() implies valid_item(
        (#[trigger] r.entries@[p]).item,
    ) by {
        let k = r.entries@[p].key@;
        assert(decreases_to!(r.entries => r.entries@[p]));
        assert(m.entries@[p].key@ == k);
        assert(has_key(fk, k));
        let j = choose|j: int| 0 <= j < fk.len() && (#[trigger] fk[j]).key@ == k;
        assert(valid_item(fk[j].item));
        if has_key(ek, k) {
            let i = choose|i: int| 0 <= i < ek.len() && (#[trigger] ek[i]).key@ == k;
            assert(valid_item(ek[i].item));
            merged_item_valid(ek[i].item, fk[j].item, m.entries@[p].action, r.entries@[p].item);
        }
    }
}

proof fn merged_item_valid(e: TomlItem, f: TomlItem, a: ItemAction, r: TomlItem)
    requires
        valid_item(e),
        valid_item(f),
        item_merged(e, f, a),
        item_outcome(e, f, a, r),
    ensures
        valid_item(r),
    decreases r,
{
    match (e, f) {
        (TomlItem::Table(x), TomlItem::Table(y)) => {
            merged_table_valid(x, y, a->Table_0, r->Table_0);
        },
        (TomlItem::Tables(x), TomlItem::Tables(y)) => {
            let v = a->Tables_0;
            let z = r->Tables_0;
            assert forall|j: int| 0 <= j < z@.len() implies valid_table(#[trigger] z@[j]) by {
                assert(decreases_to!(z => z@[j]));
                assert(listed_merged(x, y@[j], partners(x@, y@, y@.len())[j], v@[j]));
                assert(valid_table(y@[j]));
                match v@[j] {
                    ListedTable::Existing(k, m) => {
                        assert(valid_table(x@[k as int]));
                        merged_table_valid(x@[k as int], y@[j], m, z@[j]);
                    },
                    ListedTable::Fresh => {},
                }
            }
        },
        (TomlItem::Value(TomlValue::Inline(x)), TomlItem::Table(y)) => {
            if flat(y.entries@) {
                let v = a->Inline_0;
                let z = (r->Value_0)->Inline_0;
                let fk = y.entries@;
                kept_value_keys_members(x@, fk, x@.len());
                new_value_keys_members(x@, fk, fk.len());
                kept_value_keys_distinct(x@, fk, x@.len());
                new_value_keys_distinct(x@, fk, fk.len());
                let kept = kept_value_keys(x@, fk, x@.len());
                let new = new_value_keys(x@, fk, fk.len());
                let all = value_plan_keys(v@);
                assert forall|k: Seq<char>| #[trigger] kept.contains(k) implies !new.contains(
                    k,
                ) by {
                    let i = choose|i: int| 0 <= i < x@.len() && (#[trigger] x@[i]).key@ == k;
                    assert(has_value_key(x@, k));
                }
                concat_distinct(kept, new);
                assert forall|i: int, j: int| 0 <= i < j < z@.len() implies (
                #[trigger] z@[i]).key@ != (#[trigger] z@[j]).key@ by {
                    assert(all[i] == z@[i].key@);
                    assert(all[j] == z@[j].key@);
                }
            }
        },
        _ => {},
    }
}

/// Saving the same configuration again leaves the file as the first save made
/// it: the second plan changes nothing.
pub proof fn second_save_changes_nothing(
    e: TomlTable,
    f: TomlTable,
    m: TablePlan,
    r: TomlTable,
    again: TablePlan,
)
    requires
        valid_table(e),
        valid_table(f),
        table_merged(e, f, m),
        table_outcome(e, f, m, r),
        table_merged(r, f, again),
    ensures
        table_unchanged(r, f, again),
{
    merged_table_mirrors_fresh(e, f, m, r);
    merged_table_valid(e, f, m, r);
    merging_the_same_changes_nothing(r, f, again);
}

/// The document that a second save of the same configuration makes is the one
/// that the first save made.
pub proof fn second_save_makes_the_same_document(
    e: TomlTable,
    f: TomlTable,
    m: TablePlan,
    r: TomlTable,
    again: TablePlan,
    s: TomlTable,
)
    requires
        valid_table(e),
        valid_table(f),
        table_merged(e, f, m),
        table_outcome(e, f, m, r),
        table_merged(r, f, again),
        table_outcome(r, f, again, s),
    ensures
        table_same(r, s),
{
    merged_table_mirrors_fresh(e, f, m, r);
    second_save_changes_nothing(e, f, m, r, again);
    unchanged_table_is_same(r, f, again, s);
}

/// A file that was written for the first time is left as it is by a second
/// save of the same configuration.
pub proof fn fresh_file_is_left_alone(f: TomlTable, m: TablePlan, s: TomlTable)
    requires
        valid_table(f),
        table_merged(f, f, m),
        table_outcome(f, f, m, s),
    ensures
        table_unchanged(f, f, m),
        table_same(f, s),
{
    table_agrees_with_itself(f);
    merging_the_same_changes_nothing(f, f, m);
    unchanged_table_is_same(f, f, m, s);
}

proof fn agreeing_table_holds(r: TomlTable, f: TomlTable)
    requires
        regular_table(f),
        table_agrees(r, f),
    ensures
        table_holds(r, f),
    decreases r,
{
    assert forall|p: int, j: int|
        #![trigger r.entries@[p], f.entries@[j]]
        0 <= p < r.entries@.len() && 0 <= j < f.entries@.len() && r.entries@[p].key@
            == f.entries@[j].key@ implies item_holds(r.entries@[p].item, f.entries@[j].item) by {
        assert(decreases_to!(r.entries => r.entries@[p]));
        assert(regular_item(f.entries@[j].item));
        agreeing_item_holds(r.entries@[p].item, f.entries@[j].item);
    }
}

proof fn agreeing_item_holds(r: TomlItem, f: TomlItem)
    requires
        regular_item(f),
        item_agrees(r, f),
    ensures
        item_holds(r, f),
    decreases r,
{
    match (r, f) {
        (TomlItem::Table(x), TomlItem::Table(y)) => agreeing_table_holds(x, y),
        (TomlItem::Tables(x), TomlItem::Tables(y)) => {
            assert forall|j: int| 0 <= j < x@.len() implies table_holds(
                #[trigger] x@[j],
                y@[j],
            ) by {
                assert(decreases_to!(x => x@[j]));
                assert(regular_table(y@[j]));
                agreeing_table_holds(x@[j], y@[j]);
            }
        },
        (TomlItem::Value(x), TomlItem::Value(y)) => value_same_as_itself(y),
        (TomlItem::Value(TomlValue::Inline(x)), TomlItem::Table(y)) => {
            let fk = y.entries@;
            assert forall|p: int, j: int|
                #![trigger x@[p], fk[j]]
                0 <= p < x@.len() && 0 <= j < fk.len() && x@[p].key@
                    == fk[j].key@ implies same_value(x@[p].value, fk[j].item->Value_0) by {
                assert(regular_item(fk[j].item));
                assert(fk[j].item is Value);
                value_same_as_itself(fk[j].item->Value_0);
            }
        },
        _ => {},
    }
}

/// The document that a save makes holds the values that were saved, so that
/// another save of them finds nothing to change.
pub proof fn merged_document_holds_the_values(
    e: TomlTable,
    f: TomlTable,
    m: TablePlan,
    r: TomlTable,
)
    requires
        valid_table(e),
        valid_table(f),
        regular_table(f),
        table_merged(e, f, m),
        table_outcome(e, f, m, r),
    ensures
        table_holds(r, f),
{
    merged_table_mirrors_fresh(e, f, m, r);
    agreeing_table_holds(r, f);
}

/// A document holds its own values.
pub proof fn document_holds_its_own_values(f: TomlTable)
    requires
        valid_table(f),
        regular_table(f),
    ensures
        table_holds(f, f),
{
    table_agrees_with_itself(f);
    agreeing_table_holds(f, f);
}

/// The partners of the first entries do not depend on how many follow.
pub proof fn partners_prefix(e: Seq<TomlTable>, f: Seq<TomlTable>, n: nat, j: int)
    requires
        0 <= j < n,
    ensures
        partners(e, f, n).len() == n,
        partners(e, f, n).take(j) == partners(e, f, j as nat),
        partners(e, f, n)[j] == partner(e, f, partners(e, f, j as nat), j),
    decreases n,
{
    let before = partners(e, f, (n - 1) as nat);
    if j < n - 1 {
        partners_prefix(e, f, (n - 1) as nat, j);
        assert(partners(e, f, n).take(j) =~= before.take(j));
    } else {
        if n > 1 {
            partners_prefix(e, f, (n - 1) as nat, n - 2);
        }
        assert(partners(e, f, n).take(j) =~= before);
    }
}

proof fn named_from_finds(e: Seq<TomlTable>, name: Seq<char>, used: Seq<Option<int>>, i: int)
    requires
        0 <= i,
    ensures
        match named_from(e, name, used, i) {
            Some(k) => {
                &&& i <= k < e.len()
                &&& entry_name_of(e[k]) == Some(name)
                &&& !used.contains(Some(k))
                &&& forall|q: int|
                    i <= q < k && entry_name_of(#[trigger] e[q]) == Some(name) ==> used.contains(
                        Some(q),
                    )
            },
            None => forall|q: int|
                i <= q < e.len() && entry_name_of(#[trigger] e[q]) == Some(name) ==> used.contains(
                    Some(q),
                ),
        },
    decreases e.len() - i,
{
    if i < e.len() && !(entry_name_of(e[i]) == Some(name) && !used.contains(Some(i))) {
        named_from_finds(e, name, used, i + 1);
    }
}

/// A list entry with a name only ever takes the place of an entry on disk with
/// that name.
pub proof fn named_entry_keeps_to_its_name(e: Seq<TomlTable>, f: Seq<TomlTable>, j: int)
    requires
        0 <= j < f.len(),
        entry_name_of(f[j]) is Some,
    ensures
        partners(e, f, f.len())[j] matches Some(i) ==> 0 <= i < e.len() && entry_name_of(e[i])
            == entry_name_of(f[j]),
{
    partners_prefix(e, f, f.len(), j);
    named_from_finds(e, entry_name_of(f[j])->0, partners(e, f, j as nat), 0);
}

/// A list entry whose name is nowhere on disk is added as it is, and takes no
/// table or comment from another.
pub proof fn new_name_is_added(e: Seq<TomlTable>, f: Seq<TomlTable>, j: int)
    requires
        0 <= j < f.len(),
        entry_name_of(f[j]) is Some,
        forall|i: int| 0 <= i < e.len() ==> entry_name_of(#[trigger] e[i]) != entry_name_of(f[j]),
    ensures
        partners(e, f, f.len())[j] is None,
{
    named_entry_keeps_to_its_name(e, f, j);
}

/// No entry on disk is used twice.
pub proof fn partners_are_distinct(e: Seq<TomlTable>, f: Seq<TomlTable>, i: int, j: int)
    requires
        0 <= i < j < f.len(),
    ensures
        partners(e, f, f.len())[j] is Some ==> partners(e, f, f.len())[i] != partners(
            e,
            f,
            f.len(),
        )[j],
{
    let used = partners(e, f, j as nat);
    partners_prefix(e, f, f.len(), i);
    partners_prefix(e, f, f.len(), j);
    if entry_name_of(f[j]) is Some {
        named_from_finds(e, entry_name_of(f[j])->0, used, 0);
    }
    assert(partners(e, f, f.len()).take(j)[i] == used[i]);
}

/// Deleting, adding and reordering entries leaves each survivor its table, and
/// with it its comments: where the entries have names, and no earlier one has
/// this one's, it is matched with the first on disk that has its name.
pub proof fn survivor_keeps_its_table(e: Seq<TomlTable>, f: Seq<TomlTable>, i: int, j: int)
    requires
        0 <= i < e.len(),
        0 <= j < f.len(),
        forall|q: int| 0 <= q < j ==> entry_name_of(#[trigger] f[q]) is Some,
        forall|q: int| 0 <= q < j ==> entry_name_of(#[trigger] f[q]) != entry_name_of(f[j]),
        entry_name_of(f[j]) is Some,
        entry_name_of(e[i]) == entry_name_of(f[j]),
        forall|q: int| 0 <= q < i ==> entry_name_of(#[trigger] e[q]) != entry_name_of(f[j]),
    ensures
        partners(e, f, f.len())[j] == Some(i),
{
    let used = partners(e, f, j as nat);
    partners_prefix(e, f, f.len(), j);
    if used.contains(Some(i)) {
        let q = choose|q: int| 0 <= q < used.len() && used[q] == Some(i);
        assert(used.len() == j) by {
            if j > 0 {
                partners_prefix(e, f, j as nat, 0);
            }
        }
        partners_prefix(e, f, j as nat, q);
        named_from_finds(e, entry_name_of(f[q])->0, partners(e, f, q as nat), 0);
        assert(entry_name_of(f[q]) == entry_name_of(e[i]));
    }
    named_from_finds(e, entry_name_of(f[j])->0, used, 0);
    assert(entry_name_of(e[i]) == Some(entry_name_of(f[j])->0));
}

} // verus!
