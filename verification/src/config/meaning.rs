//! What a saved document says, told without the comparison that the merge
//! makes: every value that was saved stands in the file, and what did not
//! change keeps its form and its place.

use crate::config::document::{
    distinct_keys, distinct_value_keys, entry_name_of, first_value, flat, has_key, has_value_key,
    holds, inline_merged, item_merged, kept_keys, kept_value_keys, new_keys, new_value_keys,
    partners, plan_keys, same_float, same_value, table_merged, valid_table, value_plan_keys,
    ItemAction, ItemEntry, TablePlan, TomlItem, TomlTable, TomlValue, ValueAction, ValueEntry,
    ValuePlan,
};
use crate::config::document_laws::{
    item_agrees, kept_keys_distinct, kept_keys_members, kept_value_keys_distinct,
    kept_value_keys_members, merged_table_mirrors_fresh, new_keys_distinct, new_keys_members,
    new_value_keys_distinct, new_value_keys_members, partners_prefix, regular_item, regular_value,
    table_agrees, table_outcome,
};
use crate::config::unchanged::{item_holds, table_holds};
use vstd::prelude::*;

verus! {

/// Whether two doubles are the same number: they have the same bits, or are
/// the two zeros.
pub open spec fn number_is(a: u64, b: u64) -> bool {
    a == b || (a == 0 || a == 0x8000_0000_0000_0000) && (b == 0 || b == 0x8000_0000_0000_0000)
}

/// Whether a double is a number at all: infinity has the greatest magnitude
/// that is one.
pub open spec fn is_number(a: u64) -> bool {
    a <= 0x7ff0_0000_0000_0000 || 0x8000_0000_0000_0000 <= a <= 0xfff0_0000_0000_0000
}

/// Doubles count as the same exactly where both are numbers, and the same one.
pub proof fn same_doubles_are_the_same_number(a: u64, b: u64)
    ensures
        same_float(a, b) <==> is_number(a) && is_number(b) && number_is(a, b),
{
}

/// Whether a value says the same as another: the same text, number, switch or
/// date, the same list, or a table of as many keys with the same values.
pub open spec fn value_is(a: TomlValue, b: TomlValue) -> bool
    decreases a,
{
    match (a, b) {
        (TomlValue::Text(x), TomlValue::Text(y)) => x@ == y@,
        (TomlValue::Integer(x), TomlValue::Integer(y)) => x == y,
        (TomlValue::Float(x), TomlValue::Float(y)) => number_is(x, y),
        (TomlValue::Boolean(x), TomlValue::Boolean(y)) => x == y,
        (TomlValue::Datetime(x), TomlValue::Datetime(y)) => x@ == y@,
        (TomlValue::Array(x), TomlValue::Array(y)) => {
            &&& x@.len() == y@.len()
            &&& forall|i: int| 0 <= i < x@.len() ==> value_is(#[trigger] x@[i], y@[i])
        },
        (TomlValue::Inline(x), TomlValue::Inline(y)) => {
            &&& x@.len() == y@.len()
            &&& forall|i: int| 0 <= i < x@.len() ==> entry_is_in(#[trigger] x@[i], y@)
        },
        _ => false,
    }
}

/// Whether a table has this key, with a value that says the same.
pub open spec fn entry_is_in(e: ValueEntry, y: Seq<ValueEntry>) -> bool
    decreases e,
{
    exists|j: int|
        0 <= j < y.len() && (#[trigger] y[j]).key@ == e.key@ && value_is(e.value, y[j].value)
}

/// Values that are taken for the same say the same.
pub proof fn same_values_say_the_same(a: TomlValue, b: TomlValue)
    requires
        same_value(a, b),
    ensures
        value_is(a, b),
    decreases a,
{
    match (a, b) {
        (TomlValue::Float(x), TomlValue::Float(y)) => same_doubles_are_the_same_number(x, y),
        (TomlValue::Array(x), TomlValue::Array(y)) => {
            assert forall|i: int| 0 <= i < x@.len() implies value_is(#[trigger] x@[i], y@[i]) by {
                assert(decreases_to!(x => x@[i]));
                same_values_say_the_same(x@[i], y@[i]);
            }
        },
        (TomlValue::Inline(x), TomlValue::Inline(y)) => {
            assert forall|i: int| 0 <= i < x@.len() implies entry_is_in(#[trigger] x@[i], y@) by {
                assert(decreases_to!(x => x@[i]));
                assert(holds(y@, x@[i]));
                let j = choose|j: int|
                    0 <= j < y@.len() && first_value(y@, j) && (#[trigger] y@[j]).key@
                        == x@[i].key@ && same_value(x@[i].value, y@[j].value);
                same_values_say_the_same(x@[i].value, y@[j].value);
                assert(y@[j].key@ == x@[i].key@);
            }
        },
        _ => {},
    }
}

/// Values that say the same are taken for the same, where every double in them
/// is a number and no table has a key twice.
pub proof fn values_that_say_the_same_are_the_same(a: TomlValue, b: TomlValue)
    requires
        value_is(a, b),
        regular_value(a),
        regular_value(b),
    ensures
        same_value(a, b),
    decreases a,
{
    match (a, b) {
        (TomlValue::Float(x), TomlValue::Float(y)) => same_doubles_are_the_same_number(x, y),
        (TomlValue::Array(x), TomlValue::Array(y)) => {
            assert forall|i: int| 0 <= i < x@.len() implies same_value(#[trigger] x@[i], y@[i]) by {
                assert(decreases_to!(x => x@[i]));
                assert(value_is(x@[i], y@[i]));
                assert(regular_value(y@[i]));
                values_that_say_the_same_are_the_same(x@[i], y@[i]);
            }
        },
        (TomlValue::Inline(x), TomlValue::Inline(y)) => {
            assert forall|i: int| 0 <= i < x@.len() implies holds(y@, #[trigger] x@[i]) by {
                assert(decreases_to!(x => x@[i]));
                assert(entry_is_in(x@[i], y@));
                let j = choose|j: int|
                    0 <= j < y@.len() && (#[trigger] y@[j]).key@ == x@[i].key@ && value_is(
                        x@[i].value,
                        y@[j].value,
                    );
                assert(regular_value(y@[j].value));
                values_that_say_the_same_are_the_same(x@[i].value, y@[j].value);
                assert(first_value(y@, j));
                assert(y@[j].key@ == x@[i].key@);
            }
        },
        _ => {},
    }
}

/// A value says the same as itself.
pub proof fn value_is_itself(v: TomlValue)
    ensures
        value_is(v, v),
    decreases v,
{
    match v {
        TomlValue::Array(x) => {
            assert forall|i: int| 0 <= i < x@.len() implies value_is(#[trigger] x@[i], x@[i]) by {
                assert(decreases_to!(x => x@[i]));
                value_is_itself(x@[i]);
            }
        },
        TomlValue::Inline(x) => {
            assert forall|i: int| 0 <= i < x@.len() implies entry_is_in(#[trigger] x@[i], x@) by {
                assert(decreases_to!(x => x@[i]));
                value_is_itself(x@[i].value);
            }
        },
        _ => {},
    }
}

/// Whether a table says the same as `f`: it has its keys and no others, and
/// each with an item that says the same.
pub open spec fn table_is(r: TomlTable, f: TomlTable) -> bool
    decreases r,
{
    &&& forall|p: int|
        0 <= p < r.entries@.len() ==> has_key(f.entries@, (#[trigger] r.entries@[p]).key@)
    &&& forall|j: int|
        0 <= j < f.entries@.len() ==> has_key(r.entries@, (#[trigger] f.entries@[j]).key@)
    &&& forall|p: int, j: int|
        #![trigger r.entries@[p], f.entries@[j]]
        0 <= p < r.entries@.len() && 0 <= j < f.entries@.len() && r.entries@[p].key@
            == f.entries@[j].key@ ==> item_is(r.entries@[p].item, f.entries@[j].item)
}

/// Whether an item says the same as `f`. A section may stand as an inline
/// table.
pub open spec fn item_is(r: TomlItem, f: TomlItem) -> bool
    decreases r,
{
    match (r, f) {
        (TomlItem::Table(x), TomlItem::Table(y)) => table_is(x, y),
        (TomlItem::Tables(x), TomlItem::Tables(y)) => {
            &&& x@.len() == y@.len()
            &&& forall|j: int| 0 <= j < x@.len() ==> table_is(#[trigger] x@[j], y@[j])
        },
        (TomlItem::Value(x), TomlItem::Value(y)) => value_is(x, y),
        (TomlItem::Value(TomlValue::Inline(x)), TomlItem::Table(y)) => {
            &&& forall|p: int| 0 <= p < x@.len() ==> has_key(y.entries@, (#[trigger] x@[p]).key@)
            &&& forall|j: int|
                0 <= j < y.entries@.len() ==> has_value_key(x@, (#[trigger] y.entries@[j]).key@)
            &&& forall|p: int, j: int|
                #![trigger x@[p], y.entries@[j]]
                0 <= p < x@.len() && 0 <= j < y.entries@.len() && x@[p].key@ == y.entries@[j].key@
                    ==> y.entries@[j].item is Value && value_is(
                    x@[p].value,
                    y.entries@[j].item->Value_0,
                )
        },
        _ => false,
    }
}

proof fn agreeing_table_says_the_same(r: TomlTable, f: TomlTable)
    requires
        table_agrees(r, f),
    ensures
        table_is(r, f),
    decreases r,
{
    assert forall|p: int, j: int|
        #![trigger r.entries@[p], f.entries@[j]]
        0 <= p < r.entries@.len() && 0 <= j < f.entries@.len() && r.entries@[p].key@
            == f.entries@[j].key@ implies item_is(r.entries@[p].item, f.entries@[j].item) by {
        assert(decreases_to!(r.entries => r.entries@[p]));
        agreeing_item_says_the_same(r.entries@[p].item, f.entries@[j].item);
    }
}

proof fn agreeing_item_says_the_same(r: TomlItem, f: TomlItem)
    requires
        item_agrees(r, f),
    ensures
        item_is(r, f),
    decreases r,
{
    match (r, f) {
        (TomlItem::Table(x), TomlItem::Table(y)) => agreeing_table_says_the_same(x, y),
        (TomlItem::Tables(x), TomlItem::Tables(y)) => {
            assert forall|j: int| 0 <= j < x@.len() implies table_is(#[trigger] x@[j], y@[j]) by {
                assert(decreases_to!(x => x@[j]));
                agreeing_table_says_the_same(x@[j], y@[j]);
            }
        },
        (TomlItem::Value(x), TomlItem::Value(y)) => {
            if same_value(x, y) {
                same_values_say_the_same(x, y);
            } else {
                value_is_itself(y);
            }
        },
        (TomlItem::Value(TomlValue::Inline(x)), TomlItem::Table(y)) => {
            let fk = y.entries@;
            assert forall|p: int, j: int|
                #![trigger x@[p], fk[j]]
                0 <= p < x@.len() && 0 <= j < fk.len() && x@[p].key@ == fk[j].key@ implies fk[j].item
                is Value && value_is(x@[p].value, fk[j].item->Value_0) by {
                assert(fk[j].item is Value);
                let v = fk[j].item->Value_0;
                if same_value(x@[p].value, v) {
                    same_values_say_the_same(x@[p].value, v);
                } else {
                    value_is_itself(v);
                }
            }
        },
        _ => {},
    }
}

/// Whatever is saved stands in the file: the document that the plan makes says
/// exactly what the fresh document says, key by key and value by value.
pub proof fn saved_values_stand_in_the_file(e: TomlTable, f: TomlTable, m: TablePlan, r: TomlTable)
    requires
        valid_table(e),
        valid_table(f),
        table_merged(e, f, m),
        table_outcome(e, f, m, r),
    ensures
        table_is(r, f),
{
    merged_table_mirrors_fresh(e, f, m, r);
    agreeing_table_says_the_same(r, f);
}

/// In particular a switch, a whole number, a text and a date of the fresh document stand in
/// the file as they are.
pub proof fn saved_scalars_stand_in_the_file(
    e: TomlTable,
    f: TomlTable,
    m: TablePlan,
    r: TomlTable,
    j: int,
)
    requires
        valid_table(e),
        valid_table(f),
        table_merged(e, f, m),
        table_outcome(e, f, m, r),
        0 <= j < f.entries@.len(),
    ensures
        exists|p: int|
            0 <= p < r.entries@.len() && (#[trigger] r.entries@[p]).key@ == f.entries@[j].key@ && (
            match f.entries@[j].item {
                TomlItem::Value(TomlValue::Boolean(b)) => r.entries@[p].item == TomlItem::Value(
                    TomlValue::Boolean(b),
                ),
                TomlItem::Value(TomlValue::Integer(n)) => r.entries@[p].item == TomlItem::Value(
                    TomlValue::Integer(n),
                ),
                TomlItem::Value(TomlValue::Text(s)) => r.entries@[p].item matches TomlItem::Value(
                    TomlValue::Text(t),
                ) && t@ == s@,
                TomlItem::Value(TomlValue::Datetime(s)) => r.entries@[p].item matches TomlItem::Value(
                    TomlValue::Datetime(t),
                ) && t@ == s@,
                _ => true,
            }),
{
    saved_values_stand_in_the_file(e, f, m, r);
    assert(has_key(r.entries@, f.entries@[j].key@));
    let p = choose|p: int|
        0 <= p < r.entries@.len() && (#[trigger] r.entries@[p]).key@ == f.entries@[j].key@;
    assert(item_is(r.entries@[p].item, f.entries@[j].item));
}

proof fn holding_item_says_the_same(r: TomlItem, f: TomlItem)
    requires
        item_holds(r, f),
    ensures
        item_is(r, f),
    decreases r,
{
    match (r, f) {
        (TomlItem::Table(x), TomlItem::Table(y)) => kept_document_says_the_same(x, y),
        (TomlItem::Tables(x), TomlItem::Tables(y)) => {
            assert forall|j: int| 0 <= j < x@.len() implies table_is(#[trigger] x@[j], y@[j]) by {
                assert(decreases_to!(x => x@[j]));
                kept_document_says_the_same(x@[j], y@[j]);
            }
        },
        (TomlItem::Value(x), TomlItem::Value(y)) => same_values_say_the_same(x, y),
        (TomlItem::Value(TomlValue::Inline(x)), TomlItem::Table(y)) => {
            let fk = y.entries@;
            assert forall|p: int, j: int|
                #![trigger x@[p], fk[j]]
                0 <= p < x@.len() && 0 <= j < fk.len() && x@[p].key@ == fk[j].key@ implies fk[j].item
                is Value && value_is(x@[p].value, fk[j].item->Value_0) by {
                assert(fk[j].item is Value);
                same_values_say_the_same(x@[p].value, fk[j].item->Value_0);
            }
        },
        _ => {},
    }
}

/// A file that is left as it is, because it holds the values already, says what
/// was to be saved.
pub proof fn kept_document_says_the_same(e: TomlTable, f: TomlTable)
    requires
        table_holds(e, f),
    ensures
        table_is(e, f),
    decreases e,
{
    assert forall|p: int, j: int|
        #![trigger e.entries@[p], f.entries@[j]]
        0 <= p < e.entries@.len() && 0 <= j < f.entries@.len() && e.entries@[p].key@
            == f.entries@[j].key@ implies item_is(e.entries@[p].item, f.entries@[j].item) by {
        assert(decreases_to!(e.entries => e.entries@[p]));
        holding_item_says_the_same(e.entries@[p].item, f.entries@[j].item);
    }
}

/// A value that says the same before and after keeps its spelling; one that
/// does not is changed.
pub proof fn only_changed_values_are_rewritten(x: TomlValue, y: TomlValue, a: ItemAction)
    requires
        item_merged(TomlItem::Value(x), TomlItem::Value(y), a),
        regular_value(x),
        regular_value(y),
    ensures
        value_is(x, y) ==> a is Keep,
        !value_is(x, y) ==> a is Change,
{
    if value_is(x, y) {
        values_that_say_the_same_are_the_same(x, y);
    } else if same_value(x, y) {
        same_values_say_the_same(x, y);
    }
}

/// The same of the values of an inline table that stands for a section.
pub proof fn only_changed_inline_values_are_rewritten(
    e: Seq<ValueEntry>,
    f: Seq<ItemEntry>,
    v: Seq<ValuePlan>,
    p: int,
    i: int,
    j: int,
)
    requires
        inline_merged(e, f, v),
        flat(f),
        0 <= p < v.len(),
        0 <= i < e.len(),
        0 <= j < f.len(),
        v[p].key@ == e[i].key@,
        v[p].key@ == f[j].key@,
        regular_value(e[i].value),
        regular_item(f[j].item),
    ensures
        value_is(e[i].value, f[j].item->Value_0) ==> v[p].action == ValueAction::Keep,
        !value_is(e[i].value, f[j].item->Value_0) ==> v[p].action == ValueAction::Change,
{
    assert(f[j].item is Value);
    let x = e[i].value;
    let y = f[j].item->Value_0;
    if value_is(x, y) {
        values_that_say_the_same_are_the_same(x, y);
    } else if same_value(x, y) {
        same_values_say_the_same(x, y);
    }
}

proof fn kept_keys_in_order(e: Seq<ItemEntry>, f: Seq<ItemEntry>, n: nat, p: int, q: int)
    requires
        n <= e.len(),
        0 <= p < q < kept_keys(e, f, n).len(),
    ensures
        exists|i: int, k: int|
            0 <= i < k < n && (#[trigger] e[i]).key@ == kept_keys(e, f, n)[p] && (#[trigger]
            e[k]).key@ == kept_keys(e, f, n)[q],
    decreases n,
{
    let before = kept_keys(e, f, (n - 1) as nat);
    let now = kept_keys(e, f, n);
    if q < before.len() {
        kept_keys_in_order(e, f, (n - 1) as nat, p, q);
        let (i, k) = choose|i: int, k: int|
            0 <= i < k < n - 1 && (#[trigger] e[i]).key@ == before[p] && (#[trigger] e[k]).key@
                == before[q];
        assert(e[i].key@ == now[p] && e[k].key@ == now[q]);
    } else {
        kept_keys_members(e, f, (n - 1) as nat);
        assert(before.contains(before[p]));
        let i = choose|i: int| 0 <= i < n - 1 && (#[trigger] e[i]).key@ == before[p];
        assert(e[i].key@ == now[p] && e[n - 1].key@ == now[q]);
    }
}

proof fn new_keys_in_order(e: Seq<ItemEntry>, f: Seq<ItemEntry>, n: nat, p: int, q: int)
    requires
        n <= f.len(),
        0 <= p < q < new_keys(e, f, n).len(),
    ensures
        exists|i: int, k: int|
            0 <= i < k < n && (#[trigger] f[i]).key@ == new_keys(e, f, n)[p] && (#[trigger]
            f[k]).key@ == new_keys(e, f, n)[q],
    decreases n,
{
    let before = new_keys(e, f, (n - 1) as nat);
    let now = new_keys(e, f, n);
    if q < before.len() {
        new_keys_in_order(e, f, (n - 1) as nat, p, q);
        let (i, k) = choose|i: int, k: int|
            0 <= i < k < n - 1 && (#[trigger] f[i]).key@ == before[p] && (#[trigger] f[k]).key@
                == before[q];
        assert(f[i].key@ == now[p] && f[k].key@ == now[q]);
    } else {
        new_keys_members(e, f, (n - 1) as nat);
        assert(before.contains(before[p]));
        let i = choose|i: int| 0 <= i < n - 1 && (#[trigger] f[i]).key@ == before[p];
        assert(f[i].key@ == now[p] && f[n - 1].key@ == now[q]);
    }
}

/// The keys of a table keep their order: those on disk that stay come first,
/// in the order that they have there, and new ones follow in the order of the
/// fresh document. No key stands there twice.
pub proof fn keys_keep_their_order(e: TomlTable, f: TomlTable, m: TablePlan, p: int, q: int)
    requires
        valid_table(e),
        valid_table(f),
        table_merged(e, f, m),
        0 <= p < q < m.entries@.len(),
    ensures
        m.entries@[p].key@ != m.entries@[q].key@,
        has_key(e.entries@, m.entries@[q].key@) ==> has_key(e.entries@, m.entries@[p].key@)
            && exists|i: int, k: int|
            0 <= i < k < e.entries@.len() && (#[trigger] e.entries@[i]).key@ == m.entries@[p].key@
                && (#[trigger] e.entries@[k]).key@ == m.entries@[q].key@,
        !has_key(e.entries@, m.entries@[p].key@) ==> exists|i: int, k: int|
            0 <= i < k < f.entries@.len() && (#[trigger] f.entries@[i]).key@ == m.entries@[p].key@
                && (#[trigger] f.entries@[k]).key@ == m.entries@[q].key@,
{
    let ek = e.entries@;
    let fk = f.entries@;
    let kept = kept_keys(ek, fk, ek.len());
    let new = new_keys(ek, fk, fk.len());
    let all = plan_keys(m.entries@);
    assert(all[p] == m.entries@[p].key@);
    assert(all[q] == m.entries@[q].key@);
    assert(all == kept + new && all.len() == m.entries@.len());
    kept_keys_members(ek, fk, ek.len());
    new_keys_members(ek, fk, fk.len());
    kept_keys_distinct(ek, fk, ek.len());
    new_keys_distinct(ek, fk, fk.len());
    if q < kept.len() {
        assert(kept[p] != kept[q]);
        kept_keys_in_order(ek, fk, ek.len(), p, q);
        assert(kept.contains(kept[p]));
        let i = choose|i: int| 0 <= i < ek.len() && (#[trigger] ek[i]).key@ == kept[p];
        assert(has_key(ek, kept[p]));
    } else {
        let b: int = q - kept.len();
        assert(0 <= b < new.len());
        assert(all[q] == (kept + new)[q]);
        assert(new[b] == all[q]);
        assert(new.contains(new[b]));
        if p < kept.len() {
            assert(kept.contains(kept[p]));
            let i = choose|i: int| 0 <= i < ek.len() && (#[trigger] ek[i]).key@ == kept[p];
            assert(has_key(ek, kept[p]));
        } else {
            let a = p - kept.len();
            assert(new[a] == all[p]);
            assert(new[a] != new[b]);
            new_keys_in_order(ek, fk, fk.len(), a, b);
        }
    }
}

/// A key that the fresh document lacks goes, and every key that it has stands
/// in the plan.
pub proof fn plan_has_exactly_the_fresh_keys(e: TomlTable, f: TomlTable, m: TablePlan, key: Seq<char>)
    requires
        table_merged(e, f, m),
    ensures
        plan_keys(m.entries@).contains(key) <==> has_key(f.entries@, key),
{
    let ek = e.entries@;
    let fk = f.entries@;
    let kept = kept_keys(ek, fk, ek.len());
    let new = new_keys(ek, fk, fk.len());
    let all = plan_keys(m.entries@);
    kept_keys_members(ek, fk, ek.len());
    new_keys_members(ek, fk, fk.len());
    if all.contains(key) {
        let p = choose|p: int| 0 <= p < all.len() && all[p] == key;
        if p < kept.len() {
            assert(kept[p] == key);
            assert(kept.contains(key));
        } else {
            assert(new[p - kept.len()] == key);
            assert(new.contains(key));
            let i = choose|i: int| 0 <= i < fk.len() && (#[trigger] fk[i]).key@ == key;
        }
    }
    if has_key(fk, key) {
        if has_key(ek, key) {
            let i = choose|i: int| 0 <= i < ek.len() && (#[trigger] ek[i]).key@ == key;
            assert(kept.contains(key));
            let q = choose|q: int| 0 <= q < kept.len() && kept[q] == key;
            assert(all[q] == key);
        } else {
            let i = choose|i: int| 0 <= i < fk.len() && (#[trigger] fk[i]).key@ == key;
            assert(new.contains(key));
            let q = choose|q: int| 0 <= q < new.len() && new[q] == key;
            assert(all[kept.len() + q] == key);
        }
    }
}

/// The name of a list entry is the text under its key `name`, and an entry has
/// none where that key is missing or holds no text.
pub proof fn entries_are_named_by_their_key(t: TomlTable, i: int)
    requires
        distinct_keys(t.entries@),
        0 <= i < t.entries@.len(),
        t.entries@[i].key@ == "name"@,
    ensures
        entry_name_of(t) == (match t.entries@[i].item {
            TomlItem::Value(TomlValue::Text(s)) => Some(s@),
            _ => None,
        }),
{
    crate::config::document_laws::name_of_entry(t.entries@, i, 0);
}

/// A table without a header gets one exactly where it gains a plain value, and
/// one with a header keeps it.
pub proof fn headers_come_with_plain_values(e: TomlTable, f: TomlTable, m: TablePlan, j: int)
    requires
        table_merged(e, f, m),
    ensures
        !e.implicit ==> !m.implicit,
        0 <= j < f.entries@.len() && f.entries@[j].item is Value && !has_key(
            e.entries@,
            f.entries@[j].key@,
        ) ==> !m.implicit,
        e.implicit && (forall|k: int|
            0 <= k < f.entries@.len() && (#[trigger] f.entries@[k]).item is Value ==> has_key(
                e.entries@,
                f.entries@[k].key@,
            )) ==> m.implicit,
{
}

/// What stays of the same kind keeps its form, and with it the comments in it:
/// a section is merged into the section on disk, a list of tables into the
/// list, and a section that stands inline into the inline table where its
/// values fit there. Only what changes its kind is written anew.
pub proof fn sections_keep_their_form(e: TomlItem, f: TomlItem, a: ItemAction)
    requires
        item_merged(e, f, a),
    ensures
        e is Table && f is Table ==> a is Table,
        e is Tables && f is Tables ==> a is Tables,
        e is Value && f is Value ==> a is Keep || a is Change,
        (e matches TomlItem::Value(TomlValue::Inline(_))) && (f matches TomlItem::Table(t) && (
        forall|j: int| 0 <= j < t.entries@.len() ==> (#[trigger] t.entries@[j]).item is Value))
            ==> a is Inline,
        e is Table && !(f is Table) ==> a is Fresh,
        e is Tables && !(f is Tables) ==> a is Fresh,
{
}

/// A key that both documents have is merged with what is on disk, and one that
/// only the fresh document has is added as it is.
pub proof fn shared_keys_are_merged(
    e: TomlTable,
    f: TomlTable,
    m: TablePlan,
    p: int,
    i: int,
    j: int,
)
    requires
        table_merged(e, f, m),
        0 <= p < m.entries@.len(),
    ensures
        !has_key(e.entries@, m.entries@[p].key@) ==> m.entries@[p].action is Fresh,
        0 <= i < e.entries@.len() && 0 <= j < f.entries@.len() && e.entries@[i].key@
            == m.entries@[p].key@ && f.entries@[j].key@ == m.entries@[p].key@
            && e.entries@[i].item is Table && f.entries@[j].item is Table ==> (
        m.entries@[p].action matches ItemAction::Table(n) && table_merged(
            e.entries@[i].item->Table_0,
            f.entries@[j].item->Table_0,
            n,
        )),
{
}

/// Where no entry of a list has a name, each is merged with the one at its
/// place, and those past the end of the list on disk are added.
pub proof fn unnamed_entries_keep_their_places(e: Seq<TomlTable>, f: Seq<TomlTable>, j: int)
    requires
        0 <= j < f.len(),
        forall|q: int| 0 <= q < f.len() ==> entry_name_of(#[trigger] f[q]) is None,
    ensures
        partners(e, f, f.len())[j] == (if j < e.len() {
            Some(j)
        } else {
            None
        }),
{
    partners_prefix(e, f, f.len(), j);
    let used = partners(e, f, j as nat);
    unnamed_take_their_places(e, f, j as nat);
    assert(entry_name_of(f[j]) is None);
}

proof fn unnamed_take_their_places(e: Seq<TomlTable>, f: Seq<TomlTable>, n: nat)
    requires
        n <= f.len(),
        forall|q: int| 0 <= q < f.len() ==> entry_name_of(#[trigger] f[q]) is None,
    ensures
        forall|k: int| k >= n ==> !(#[trigger] partners(e, f, n).contains(Some(k))),
    decreases n,
{
    if n > 0 {
        unnamed_take_their_places(e, f, (n - 1) as nat);
        let before = partners(e, f, (n - 1) as nat);
        let now = partners(e, f, n);
        assert(entry_name_of(f[n - 1]) is None);
        assert forall|k: int| k >= n implies !(#[trigger] now.contains(Some(k))) by {
            if now.contains(Some(k)) {
                let i = choose|i: int| 0 <= i < now.len() && now[i] == Some(k);
                if i < before.len() {
                    assert(before[i] == Some(k));
                    assert(before.contains(Some(k)));
                }
            }
        }
    }
}

/// An inline table that stands for a section gets exactly the keys of that
/// section.
pub proof fn inline_plan_has_exactly_the_fresh_keys(
    e: Seq<ValueEntry>,
    f: Seq<ItemEntry>,
    v: Seq<ValuePlan>,
    key: Seq<char>,
)
    requires
        inline_merged(e, f, v),
    ensures
        value_plan_keys(v).contains(key) <==> has_key(f, key),
{
    let kept = kept_value_keys(e, f, e.len());
    let new = new_value_keys(e, f, f.len());
    let all = value_plan_keys(v);
    kept_value_keys_members(e, f, e.len());
    new_value_keys_members(e, f, f.len());
    if all.contains(key) {
        let p = choose|p: int| 0 <= p < all.len() && all[p] == key;
        if p < kept.len() {
            assert(kept[p] == key);
            assert(kept.contains(key));
        } else {
            assert(new[p - kept.len()] == key);
            assert(new.contains(key));
            let i = choose|i: int| 0 <= i < f.len() && (#[trigger] f[i]).key@ == key;
        }
    }
    if has_key(f, key) {
        if has_value_key(e, key) {
            let i = choose|i: int| 0 <= i < e.len() && (#[trigger] e[i]).key@ == key;
            assert(kept.contains(key));
            let q = choose|q: int| 0 <= q < kept.len() && kept[q] == key;
            assert(all[q] == key);
        } else {
            let i = choose|i: int| 0 <= i < f.len() && (#[trigger] f[i]).key@ == key;
            assert(new.contains(key));
            let q = choose|q: int| 0 <= q < new.len() && new[q] == key;
            assert(all[kept.len() + q] == key);
        }
    }
}

proof fn kept_value_keys_in_order(e: Seq<ValueEntry>, f: Seq<ItemEntry>, n: nat, p: int, q: int)
    requires
        n <= e.len(),
        0 <= p < q < kept_value_keys(e, f, n).len(),
    ensures
        exists|i: int, k: int|
            0 <= i < k < n && (#[trigger] e[i]).key@ == kept_value_keys(e, f, n)[p] && (#[trigger]
            e[k]).key@ == kept_value_keys(e, f, n)[q],
    decreases n,
{
    let before = kept_value_keys(e, f, (n - 1) as nat);
    let now = kept_value_keys(e, f, n);
    if q < before.len() {
        kept_value_keys_in_order(e, f, (n - 1) as nat, p, q);
        let (i, k) = choose|i: int, k: int|
            0 <= i < k < n - 1 && (#[trigger] e[i]).key@ == before[p] && (#[trigger] e[k]).key@
                == before[q];
        assert(e[i].key@ == now[p] && e[k].key@ == now[q]);
    } else {
        kept_value_keys_members(e, f, (n - 1) as nat);
        assert(before.contains(before[p]));
        let i = choose|i: int| 0 <= i < n - 1 && (#[trigger] e[i]).key@ == before[p];
        assert(e[i].key@ == now[p] && e[n - 1].key@ == now[q]);
    }
}

proof fn new_value_keys_in_order(e: Seq<ValueEntry>, f: Seq<ItemEntry>, n: nat, p: int, q: int)
    requires
        n <= f.len(),
        0 <= p < q < new_value_keys(e, f, n).len(),
    ensures
        exists|i: int, k: int|
            0 <= i < k < n && (#[trigger] f[i]).key@ == new_value_keys(e, f, n)[p] && (#[trigger]
            f[k]).key@ == new_value_keys(e, f, n)[q],
    decreases n,
{
    let before = new_value_keys(e, f, (n - 1) as nat);
    let now = new_value_keys(e, f, n);
    if q < before.len() {
        new_value_keys_in_order(e, f, (n - 1) as nat, p, q);
        let (i, k) = choose|i: int, k: int|
            0 <= i < k < n - 1 && (#[trigger] f[i]).key@ == before[p] && (#[trigger] f[k]).key@
                == before[q];
        assert(f[i].key@ == now[p] && f[k].key@ == now[q]);
    } else {
        new_value_keys_members(e, f, (n - 1) as nat);
        assert(before.contains(before[p]));
        let i = choose|i: int| 0 <= i < n - 1 && (#[trigger] f[i]).key@ == before[p];
        assert(f[i].key@ == now[p] && f[n - 1].key@ == now[q]);
    }
}

/// The keys of an inline table keep their order too: those that stay come
/// first, as they stand on disk, and new ones follow as in the fresh document.
pub proof fn inline_keys_keep_their_order(
    e: Seq<ValueEntry>,
    f: Seq<ItemEntry>,
    v: Seq<ValuePlan>,
    p: int,
    q: int,
)
    requires
        distinct_value_keys(e),
        distinct_keys(f),
        inline_merged(e, f, v),
        0 <= p < q < v.len(),
    ensures
        v[p].key@ != v[q].key@,
        has_value_key(e, v[q].key@) ==> exists|i: int, k: int|
            0 <= i < k < e.len() && (#[trigger] e[i]).key@ == v[p].key@ && (#[trigger] e[k]).key@
                == v[q].key@,
        !has_value_key(e, v[p].key@) ==> exists|i: int, k: int|
            0 <= i < k < f.len() && (#[trigger] f[i]).key@ == v[p].key@ && (#[trigger] f[k]).key@
                == v[q].key@,
{
    let kept = kept_value_keys(e, f, e.len());
    let new = new_value_keys(e, f, f.len());
    let all = value_plan_keys(v);
    assert(all[p] == v[p].key@);
    assert(all[q] == v[q].key@);
    assert(all == kept + new && all.len() == v.len());
    kept_value_keys_members(e, f, e.len());
    new_value_keys_members(e, f, f.len());
    kept_value_keys_distinct(e, f, e.len());
    new_value_keys_distinct(e, f, f.len());
    if q < kept.len() {
        assert(kept[p] != kept[q]);
        kept_value_keys_in_order(e, f, e.len(), p, q);
        assert(kept.contains(kept[p]));
        let i = choose|i: int| 0 <= i < e.len() && (#[trigger] e[i]).key@ == kept[p];
        assert(has_value_key(e, kept[p]));
    } else {
        let b: int = q - kept.len();
        assert(0 <= b < new.len());
        assert(all[q] == (kept + new)[q]);
        assert(new[b] == all[q]);
        assert(new.contains(new[b]));
        if p < kept.len() {
            assert(kept.contains(kept[p]));
            let i = choose|i: int| 0 <= i < e.len() && (#[trigger] e[i]).key@ == kept[p];
            assert(has_value_key(e, kept[p]));
        } else {
            let a: int = p - kept.len();
            assert(new[a] == all[p]);
            assert(new[a] != new[b]);
            new_value_keys_in_order(e, f, f.len(), a, b);
        }
    }
}

} // verus!
