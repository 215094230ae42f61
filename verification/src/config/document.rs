//! Rewriting a configuration file without disturbing it.
//!
//! Two documents meet: the one on disk, with the user's comments, order and
//! spelling, and the fresh one, which holds the values to be stored. The merge
//! decides, key by key, what stays as it is and what has to change. The result
//! holds exactly the values of the fresh document; everything that need not
//! change keeps its place and its form.

use crate::ieee::{at_least, is_at_least};
use crate::text::same_text;
use vstd::prelude::*;

verus! {

/// A value of a TOML document.
#[derive(Debug)]
pub enum TomlValue {
    Text(String),
    Integer(i64),
    /// A double, as its bits.
    Float(u64),
    Boolean(bool),
    /// A date or time, in its standard form.
    Datetime(String),
    Array(Vec<TomlValue>),
    Inline(Vec<ValueEntry>),
}

/// A key of an inline table.
#[derive(Debug)]
pub struct ValueEntry {
    pub key: String,
    pub value: TomlValue,
}

/// What a key of a table holds.
#[derive(Debug)]
pub enum TomlItem {
    Value(TomlValue),
    Table(TomlTable),
    Tables(Vec<TomlTable>),
}

/// A key of a table.
#[derive(Debug)]
pub struct ItemEntry {
    pub key: String,
    pub item: TomlItem,
}

/// A table of a TOML document.
#[derive(Debug)]
pub struct TomlTable {
    /// The table has no header of its own.
    pub implicit: bool,
    pub entries: Vec<ItemEntry>,
}

/// What becomes of an item of the document on disk.
#[derive(Debug)]
pub enum ItemAction {
    /// The value stays as it is.
    Keep,
    /// The fresh value takes the old one's place, comment and spacing.
    Change,
    /// The fresh item takes the old one's place as it is.
    Fresh,
    /// The table stays, with these changes inside.
    Table(TablePlan),
    /// The list of tables is rebuilt from these.
    Tables(Vec<ListedTable>),
    /// The inline table stays, with these changes inside.
    Inline(Vec<ValuePlan>),
}

/// One key of a merged table.
#[derive(Debug)]
pub struct ItemPlan {
    pub key: String,
    pub action: ItemAction,
}

/// A merged table: its keys in their new order. A key of the fresh document
/// that the table on disk lacks is appended as it is.
#[derive(Debug)]
pub struct TablePlan {
    /// Whether the table goes on without a header of its own.
    pub implicit: bool,
    pub entries: Vec<ItemPlan>,
}

/// One key of a merged inline table.
#[derive(Debug)]
pub struct ValuePlan {
    pub key: String,
    pub action: ValueAction,
}

/// What becomes of a value of an inline table.
#[derive(Debug, Clone, Copy, PartialEq, Eq, Structural)]
pub enum ValueAction {
    Keep,
    Change,
    Fresh,
}

/// One entry of a merged list of tables.
#[derive(Debug)]
pub enum ListedTable {
    /// The entry at this place on disk, with these changes inside.
    Existing(usize, TablePlan),
    /// The fresh entry as it is.
    Fresh,
}

/// Whether two doubles are equal. No value that is not a number is.
pub open spec fn same_float(a: u64, b: u64) -> bool {
    at_least(a, b) && at_least(b, a)
}

/// Whether two values are the same, whatever their form.
pub open spec fn same_value(a: TomlValue, b: TomlValue) -> bool
    decreases a,
{
    match (a, b) {
        (TomlValue::Text(x), TomlValue::Text(y)) => x@ == y@,
        (TomlValue::Integer(x), TomlValue::Integer(y)) => x == y,
        (TomlValue::Float(x), TomlValue::Float(y)) => same_float(x, y),
        (TomlValue::Boolean(x), TomlValue::Boolean(y)) => x == y,
        (TomlValue::Datetime(x), TomlValue::Datetime(y)) => x@ == y@,
        (TomlValue::Array(x), TomlValue::Array(y)) => {
            &&& x@.len() == y@.len()
            &&& forall|i: int| 0 <= i < x@.len() ==> same_value(#[trigger] x@[i], y@[i])
        },
        (TomlValue::Inline(x), TomlValue::Inline(y)) => {
            &&& x@.len() == y@.len()
            &&& forall|i: int| 0 <= i < x@.len() ==> holds(y@, #[trigger] x@[i])
        },
        _ => false,
    }
}

/// Whether no earlier entry has the key of the `j`-th.
pub open spec fn first_value(y: Seq<ValueEntry>, j: int) -> bool {
    forall|q: int| 0 <= q < j ==> (#[trigger] y[q]).key@ != y[j].key@
}

/// Structural equality of two TOML values.
pub fn values_equal(a: &TomlValue, b: &TomlValue) -> (r: bool)
    ensures
        r == same_value(*a, *b),
    decreases a,
{
    match (a, b) {
        (TomlValue::Text(x), TomlValue::Text(y)) => same_text(x.as_str(), y.as_str()),
        (TomlValue::Integer(x), TomlValue::Integer(y)) => *x == *y,
        (TomlValue::Float(x), TomlValue::Float(y)) => is_at_least(*x, *y) && is_at_least(*y, *x),
        (TomlValue::Boolean(x), TomlValue::Boolean(y)) => *x == *y,
        (TomlValue::Datetime(x), TomlValue::Datetime(y)) => same_text(x.as_str(), y.as_str()),
        (TomlValue::Array(x), TomlValue::Array(y)) => arrays_equal(x, y),
        (TomlValue::Inline(x), TomlValue::Inline(y)) => inline_tables_equal(x, y),
        _ => false,
    }
}

fn arrays_equal(x: &Vec<TomlValue>, y: &Vec<TomlValue>) -> (r: bool)
    ensures
        r == (x@.len() == y@.len() && forall|i: int|
            0 <= i < x@.len() ==> same_value(#[trigger] x@[i], y@[i])),
    decreases x,
{
    if x.len() != y.len() {
        return false;
    }
    let mut i: usize = 0;
    while i < x.len()
        invariant
            i <= x@.len() == y@.len(),
            forall|k: int| 0 <= k < i ==> same_value(#[trigger] x@[k], y@[k]),
        decreases x@.len() - i,
    {
        assert(decreases_to!(x => x@[i as int]));
        if !values_equal(&x[i], &y[i]) {
            assert(!same_value(x@[i as int], y@[i as int]));
            return false;
        }
        i += 1;
    }
    true
}

/// Whether an inline table holds this key with this value.
pub open spec fn holds(y: Seq<ValueEntry>, e: ValueEntry) -> bool
    decreases e,
{
    exists|j: int|
        0 <= j < y.len() && first_value(y, j) && (#[trigger] y[j]).key@ == e.key@ && same_value(
            e.value,
            y[j].value,
        )
}

fn inline_tables_equal(x: &Vec<ValueEntry>, y: &Vec<ValueEntry>) -> (r: bool)
    ensures
        r == (x@.len() == y@.len() && forall|i: int|
            0 <= i < x@.len() ==> holds(y@, #[trigger] x@[i])),
    decreases x,
{
    if x.len() != y.len() {
        return false;
    }
    let mut i: usize = 0;
    while i < x.len()
        invariant
            i <= x@.len() == y@.len(),
            forall|k: int| 0 <= k < i ==> holds(y@, #[trigger] x@[k]),
        decreases x@.len() - i,
    {
        assert(decreases_to!(x => x@[i as int]));
        match find_value(y, x[i].key.as_str()) {
            Some(j) => {
                assert(decreases_to!(x@[i as int] => x@[i as int].value));
                if !values_equal(&x[i].value, &y[j].value) {
                    assert(!holds(y@, x@[i as int])) by {
                        assert forall|q: int|
                            0 <= q < y@.len() && first_value(y@, q) && (#[trigger] y@[q]).key@
                                == x@[i as int].key@ implies q == j by {
                            if q < j {
                                assert(y@[q].key@ != y@[j as int].key@);
                            }
                            if j < q {
                                assert(y@[j as int].key@ != y@[q].key@);
                            }
                        }
                    }
                    return false;
                }
                assert(y@[j as int].key@ == x@[i as int].key@);
                assert(holds(y@, x@[i as int]));
            },
            None => {
                assert(!holds(y@, x@[i as int]));
                return false;
            },
        }
        i += 1;
    }
    true
}

/// The first entry with this key.
pub(crate) fn find_value(y: &[ValueEntry], key: &str) -> (r: Option<usize>)
    ensures
        match r {
            Some(j) => j < y@.len() && y@[j as int].key@ == key@ && first_value(y@, j as int),
            None => forall|j: int| 0 <= j < y@.len() ==> (#[trigger] y@[j]).key@ != key@,
        },
{
    let mut j: usize = 0;
    while j < y.len()
        invariant
            j <= y@.len(),
            forall|q: int| 0 <= q < j ==> (#[trigger] y@[q]).key@ != key@,
        decreases y@.len() - j,
    {
        if same_text(y[j].key.as_str(), key) {
            return Some(j);
        }
        j += 1;
    }
    None
}

/// Whether one of the entries has this key.
pub open spec fn has_key(entries: Seq<ItemEntry>, key: Seq<char>) -> bool {
    exists|i: int| 0 <= i < entries.len() && (#[trigger] entries[i]).key@ == key
}

/// Whether no two entries have the same key.
pub open spec fn distinct_keys(entries: Seq<ItemEntry>) -> bool {
    forall|i: int, j: int|
        0 <= i < j < entries.len() ==> (#[trigger] entries[i]).key@ != (#[trigger] entries[j]).key@
}

/// Whether one of the entries of an inline table has this key.
pub open spec fn has_value_key(entries: Seq<ValueEntry>, key: Seq<char>) -> bool {
    exists|i: int| 0 <= i < entries.len() && (#[trigger] entries[i]).key@ == key
}

/// Whether no two entries of an inline table have the same key.
pub open spec fn distinct_value_keys(entries: Seq<ValueEntry>) -> bool {
    forall|i: int, j: int|
        0 <= i < j < entries.len() ==> (#[trigger] entries[i]).key@ != (#[trigger] entries[j]).key@
}

/// Whether no table inside has a key twice.
pub open spec fn valid_item(item: TomlItem) -> bool
    decreases item,
{
    match item {
        TomlItem::Value(TomlValue::Inline(v)) => distinct_value_keys(v@),
        TomlItem::Value(_) => true,
        TomlItem::Table(t) => valid_table(t),
        TomlItem::Tables(v) => forall|i: int| 0 <= i < v@.len() ==> valid_table(#[trigger] v@[i]),
    }
}

/// Whether neither the table nor any table inside has a key twice.
pub open spec fn valid_table(t: TomlTable) -> bool
    decreases t,
{
    &&& distinct_keys(t.entries@)
    &&& forall|i: int| 0 <= i < t.entries@.len() ==> valid_item((#[trigger] t.entries@[i]).item)
}

/// Whether every entry is a plain value.
pub open spec fn flat(entries: Seq<ItemEntry>) -> bool {
    forall|i: int| 0 <= i < entries.len() ==> (#[trigger] entries[i]).item is Value
}

/// The keys of the first `n` entries of `e` that `f` has too.
pub open spec fn kept_keys(e: Seq<ItemEntry>, f: Seq<ItemEntry>, n: nat) -> Seq<Seq<char>>
    decreases n,
{
    if n == 0 {
        seq![]
    } else {
        let before = kept_keys(e, f, (n - 1) as nat);
        if has_key(f, e[n - 1].key@) {
            before.push(e[n - 1].key@)
        } else {
            before
        }
    }
}

/// The keys of the first `n` entries of `f` that `e` lacks.
pub open spec fn new_keys(e: Seq<ItemEntry>, f: Seq<ItemEntry>, n: nat) -> Seq<Seq<char>>
    decreases n,
{
    if n == 0 {
        seq![]
    } else {
        let before = new_keys(e, f, (n - 1) as nat);
        if has_key(e, f[n - 1].key@) {
            before
        } else {
            before.push(f[n - 1].key@)
        }
    }
}

/// The keys of the first `n` entries of the inline table `e` that `f` has too.
pub open spec fn kept_value_keys(e: Seq<ValueEntry>, f: Seq<ItemEntry>, n: nat) -> Seq<Seq<char>>
    decreases n,
{
    if n == 0 {
        seq![]
    } else {
        let before = kept_value_keys(e, f, (n - 1) as nat);
        if has_key(f, e[n - 1].key@) {
            before.push(e[n - 1].key@)
        } else {
            before
        }
    }
}

/// The keys of the first `n` entries of `f` that the inline table `e` lacks.
pub open spec fn new_value_keys(e: Seq<ValueEntry>, f: Seq<ItemEntry>, n: nat) -> Seq<Seq<char>>
    decreases n,
{
    if n == 0 {
        seq![]
    } else {
        let before = new_value_keys(e, f, (n - 1) as nat);
        if has_value_key(e, f[n - 1].key@) {
            before
        } else {
            before.push(f[n - 1].key@)
        }
    }
}

/// The keys of a plan, in order.
pub open spec fn plan_keys(m: Seq<ItemPlan>) -> Seq<Seq<char>> {
    Seq::new(m.len(), |i: int| m[i].key@)
}

/// The keys of a plan for an inline table, in order.
pub open spec fn value_plan_keys(m: Seq<ValuePlan>) -> Seq<Seq<char>> {
    Seq::new(m.len(), |i: int| m[i].key@)
}

/// Whether `f` brings a plain value that `e` lacks. A table without a header
/// gains one with it.
pub open spec fn gains_value(e: Seq<ItemEntry>, f: Seq<ItemEntry>) -> bool {
    exists|j: int|
        0 <= j < f.len() && (#[trigger] f[j]).item is Value && !has_key(e, f[j].key@)
}

/// The text under the key `name`, looked for from the `i`-th entry on.
pub open spec fn name_from(entries: Seq<ItemEntry>, i: int) -> Option<Seq<char>>
    decreases entries.len() - i,
{
    if i >= entries.len() {
        None
    } else if entries[i].key@ == "name"@ {
        match entries[i].item {
            TomlItem::Value(TomlValue::Text(s)) => Some(s@),
            _ => None,
        }
    } else {
        name_from(entries, i + 1)
    }
}

/// The name of a list entry, if it has one.
pub open spec fn entry_name_of(t: TomlTable) -> Option<Seq<char>> {
    name_from(t.entries@, 0)
}

/// The first entry of `e`, from the `i`-th on, that has this name and has not
/// been used.
pub open spec fn named_from(
    e: Seq<TomlTable>,
    name: Seq<char>,
    used: Seq<Option<int>>,
    i: int,
) -> Option<int>
    decreases e.len() - i,
{
    if i >= e.len() {
        None
    } else if entry_name_of(e[i]) == Some(name) && !used.contains(Some(i)) {
        Some(i)
    } else {
        named_from(e, name, used, i + 1)
    }
}

/// The entry on disk that the `j`-th fresh entry belongs to: the first with
/// its name, or, for an entry without a name, the one at its place; in either
/// case one that no earlier entry took.
pub open spec fn partner(
    e: Seq<TomlTable>,
    f: Seq<TomlTable>,
    used: Seq<Option<int>>,
    j: int,
) -> Option<int> {
    match entry_name_of(f[j]) {
        Some(name) => named_from(e, name, used, 0),
        None => if j < e.len() && !used.contains(Some(j)) {
            Some(j)
        } else {
            None
        },
    }
}

/// The partners of the first `n` fresh entries.
pub open spec fn partners(e: Seq<TomlTable>, f: Seq<TomlTable>, n: nat) -> Seq<Option<int>>
    decreases n,
{
    if n == 0 {
        seq![]
    } else {
        let used = partners(e, f, (n - 1) as nat);
        used.push(partner(e, f, used, n - 1))
    }
}

/// Whether `m` is how the table `f` is merged into the table `e`.
pub open spec fn table_merged(e: TomlTable, f: TomlTable, m: TablePlan) -> bool
    decreases e,
{
    &&& plan_keys(m.entries@) == kept_keys(e.entries@, f.entries@, e.entries@.len()) + new_keys(
        e.entries@,
        f.entries@,
        f.entries@.len(),
    )
    &&& m.implicit == (e.implicit && !gains_value(e.entries@, f.entries@))
    &&& forall|p: int, i: int, j: int|
        #![trigger m.entries@[p], e.entries@[i], f.entries@[j]]
        0 <= p < m.entries@.len() && 0 <= i < e.entries@.len() && 0 <= j < f.entries@.len()
            && m.entries@[p].key@ == e.entries@[i].key@ && m.entries@[p].key@ == f.entries@[j].key@
            ==> item_merged(e.entries@[i].item, f.entries@[j].item, m.entries@[p].action)
    &&& forall|p: int|
        0 <= p < m.entries@.len() && !has_key(e.entries@, (#[trigger] m.entries@[p]).key@)
            ==> m.entries@[p].action is Fresh
}

/// Whether `a` is how the item `f` is merged into the item `e`.
pub open spec fn item_merged(e: TomlItem, f: TomlItem, a: ItemAction) -> bool
    decreases e,
{
    match (e, f) {
        (TomlItem::Table(x), TomlItem::Table(y)) => {
            a matches ItemAction::Table(m) && table_merged(x, y, m)
        },
        (TomlItem::Tables(x), TomlItem::Tables(y)) => {
            a matches ItemAction::Tables(v) && v@.len() == y@.len() && forall|j: int|
                0 <= j < y@.len() ==> listed_merged(
                    x,
                    y@[j],
                    partners(x@, y@, y@.len())[j],
                    #[trigger] v@[j],
                )
        },
        (TomlItem::Value(x), TomlItem::Value(y)) => if same_value(x, y) {
            a is Keep
        } else {
            a is Change
        },
        (TomlItem::Value(TomlValue::Inline(x)), TomlItem::Table(y)) => if flat(y.entries@) {
            a matches ItemAction::Inline(v) && inline_merged(x@, y.entries@, v@)
        } else {
            a is Fresh
        },
        _ => a is Fresh,
    }
}

/// Whether `l` is how a fresh list entry with this partner is merged.
pub open spec fn listed_merged(
    x: Vec<TomlTable>,
    f: TomlTable,
    partner: Option<int>,
    l: ListedTable,
) -> bool
    decreases x,
{
    match partner {
        Some(i) => if 0 <= i < x@.len() {
            l matches ListedTable::Existing(k, m) && k == i && table_merged(x@[i], f, m)
        } else {
            false
        },
        None => l is Fresh,
    }
}

/// Whether `v` is how the flat table `f` is merged into the inline table `e`.
pub open spec fn inline_merged(e: Seq<ValueEntry>, f: Seq<ItemEntry>, v: Seq<ValuePlan>) -> bool {
    &&& value_plan_keys(v) == kept_value_keys(e, f, e.len()) + new_value_keys(e, f, f.len())
    &&& forall|p: int, i: int, j: int|
        #![trigger v[p], e[i], f[j]]
        0 <= p < v.len() && 0 <= i < e.len() && 0 <= j < f.len() && v[p].key@ == e[i].key@
            && v[p].key@ == f[j].key@ ==> v[p].action == (if same_value(
            e[i].value,
            f[j].item->Value_0,
        ) {
            ValueAction::Keep
        } else {
            ValueAction::Change
        })
    &&& forall|p: int|
        0 <= p < v.len() && !has_value_key(e, (#[trigger] v[p]).key@) ==> v[p].action
            == ValueAction::Fresh
}

/// The entry with this key.
pub(crate) fn find_entry(y: &[ItemEntry], key: &str) -> (r: Option<usize>)
    ensures
        match r {
            Some(j) => j < y@.len() && y@[j as int].key@ == key@,
            None => !has_key(y@, key@),
        },
{
    let mut j: usize = 0;
    while j < y.len()
        invariant
            j <= y@.len(),
            forall|q: int| 0 <= q < j ==> (#[trigger] y@[q]).key@ != key@,
        decreases y@.len() - j,
    {
        if same_text(y[j].key.as_str(), key) {
            return Some(j);
        }
        j += 1;
    }
    None
}

pub(crate) fn is_flat(y: &[ItemEntry]) -> (r: bool)
    ensures
        r == flat(y@),
{
    let mut j: usize = 0;
    while j < y.len()
        invariant
            j <= y@.len(),
            forall|q: int| 0 <= q < j ==> (#[trigger] y@[q]).item is Value,
        decreases y@.len() - j,
    {
        match y[j].item {
            TomlItem::Value(_) => {},
            _ => {
                return false;
            },
        }
        j += 1;
    }
    true
}

/// Sync `e`, the table on disk, to hold exactly the keys and values of `f`.
/// Matching keys keep their form, recursing into sub-tables; keys that `f`
/// lacks go; new keys are appended.
pub fn merge_table(e: &TomlTable, f: &TomlTable) -> (m: TablePlan)
    requires
        valid_table(*e),
        valid_table(*f),
    ensures
        table_merged(*e, *f, m),
    decreases e,
{
    let mut entries: Vec<ItemPlan> = Vec::new();
    let mut i: usize = 0;
    assert(plan_keys(entries@) =~= kept_keys(e.entries@, f.entries@, 0));
    while i < e.entries.len()
        invariant
            i <= e.entries@.len(),
            valid_table(*e),
            valid_table(*f),
            plan_keys(entries@) == kept_keys(e.entries@, f.entries@, i as nat),
            forall|p: int|
                0 <= p < entries@.len() ==> exists|q: int|
                    0 <= q < i && (#[trigger] e.entries@[q]).key@ == (
                    #[trigger] entries@[p]).key@,
            forall|p: int, q: int, j: int|
                #![trigger entries@[p], e.entries@[q], f.entries@[j]]
                0 <= p < entries@.len() && 0 <= q < i && 0 <= j < f.entries@.len()
                    && entries@[p].key@ == e.entries@[q].key@ && entries@[p].key@
                    == f.entries@[j].key@ ==> item_merged(
                    e.entries@[q].item,
                    f.entries@[j].item,
                    entries@[p].action,
                ),
        decreases e.entries@.len() - i,
    {
        let ghost before = entries@;
        match find_entry(&f.entries, e.entries[i].key.as_str()) {
            Some(j) => {
                assert(valid_item(e.entries@[i as int].item));
                assert(valid_item(f.entries@[j as int].item));
                assert(decreases_to!(e.entries => e.entries@[i as int]));
                assert(decreases_to!(e.entries@[i as int] => e.entries@[i as int].item));
                let action = merge_item(&e.entries[i].item, &f.entries[j].item);
                entries.push(ItemPlan { key: e.entries[i].key.clone(), action });
                assert(plan_keys(entries@) =~= plan_keys(before).push(e.entries@[i as int].key@));
                proof {
                    assert forall|p: int, q: int, k: int|
                        #![trigger entries@[p], e.entries@[q], f.entries@[k]]
                        0 <= p < entries@.len() && 0 <= q < i + 1 && 0 <= k < f.entries@.len()
                            && entries@[p].key@ == e.entries@[q].key@ && entries@[p].key@
                            == f.entries@[k].key@ implies item_merged(
                        e.entries@[q].item,
                        f.entries@[k].item,
                        entries@[p].action,
                    ) by {
                        if p < before.len() {
                            assert(before[p] == entries@[p]);
                            if q == i {
                                let z = choose|z: int|
                                    0 <= z < i && (#[trigger] e.entries@[z]).key@ == before[p].key@;
                                assert(e.entries@[z].key@ == e.entries@[q].key@);
                            }
                        } else {
                            assert(q == i);
                            assert(k == j);
                        }
                    }
                    assert forall|p: int| 0 <= p < entries@.len() implies exists|q: int|
                        0 <= q < i + 1 && (#[trigger] e.entries@[q]).key@ == (
                        #[trigger] entries@[p]).key@ by {
                        if p < before.len() {
                            let z = choose|z: int|
                                0 <= z < i && (#[trigger] e.entries@[z]).key@ == before[p].key@;
                            assert(e.entries@[z].key@ == entries@[p].key@);
                        } else {
                            assert(e.entries@[i as int].key@ == entries@[p].key@);
                        }
                    }
                }
            },
            None => {
                proof {
                    assert forall|p: int, q: int, k: int|
                        #![trigger entries@[p], e.entries@[q], f.entries@[k]]
                        0 <= p < entries@.len() && 0 <= q < i + 1 && 0 <= k < f.entries@.len()
                            && entries@[p].key@ == e.entries@[q].key@ && entries@[p].key@
                            == f.entries@[k].key@ implies item_merged(
                        e.entries@[q].item,
                        f.entries@[k].item,
                        entries@[p].action,
                    ) by {
                        if q == i {
                            assert(has_key(f.entries@, e.entries@[i as int].key@));
                        }
                    }
                }
            },
        }
        i += 1;
    }
    let ghost kept = entries@;
    let mut implicit = e.implicit;
    let mut j: usize = 0;
    assert(plan_keys(kept) =~= plan_keys(kept) + new_keys(e.entries@, f.entries@, 0));
    while j < f.entries.len()
        invariant
            j <= f.entries@.len(),
            plan_keys(kept) == kept_keys(e.entries@, f.entries@, e.entries@.len()),
            plan_keys(entries@) == plan_keys(kept) + new_keys(e.entries@, f.entries@, j as nat),
            kept.len() <= entries@.len(),
            forall|p: int| 0 <= p < kept.len() ==> #[trigger] entries@[p] == kept[p],
            forall|p: int|
                kept.len() <= p < entries@.len() ==> !has_key(
                    e.entries@,
                    (#[trigger] entries@[p]).key@,
                ) && entries@[p].action is Fresh,
            implicit == (e.implicit && !(exists|k: int|
                0 <= k < j && (#[trigger] f.entries@[k]).item is Value && !has_key(
                    e.entries@,
                    f.entries@[k].key@,
                ))),
        decreases f.entries@.len() - j,
    {
        let ghost before = entries@;
        match find_entry(&e.entries, f.entries[j].key.as_str()) {
            Some(_) => {
                assert(has_key(e.entries@, f.entries@[j as int].key@));
            },
            None => {
                match f.entries[j].item {
                    TomlItem::Value(_) => {
                        implicit = false;
                        assert(f.entries@[j as int].item is Value);
                    },
                    _ => {},
                }
                entries.push(
                    ItemPlan { key: f.entries[j].key.clone(), action: ItemAction::Fresh },
                );
                assert(plan_keys(entries@) =~= plan_keys(before).push(f.entries@[j as int].key@));
                assert(plan_keys(entries@) =~= plan_keys(kept) + new_keys(
                    e.entries@,
                    f.entries@,
                    (j + 1) as nat,
                ));
            },
        }
        j += 1;
    }
    let m = TablePlan { implicit, entries };
    proof {
        assert forall|p: int, q: int, k: int|
            #![trigger m.entries@[p], e.entries@[q], f.entries@[k]]
            0 <= p < m.entries@.len() && 0 <= q < e.entries@.len() && 0 <= k < f.entries@.len()
                && m.entries@[p].key@ == e.entries@[q].key@ && m.entries@[p].key@
                == f.entries@[k].key@ implies item_merged(
            e.entries@[q].item,
            f.entries@[k].item,
            m.entries@[p].action,
        ) by {
            if p < kept.len() {
                assert(kept[p] == m.entries@[p]);
            } else {
                assert(has_key(e.entries@, m.entries@[p].key@));
            }
        }
        assert forall|p: int|
            0 <= p < m.entries@.len() && !has_key(
                e.entries@,
                (#[trigger] m.entries@[p]).key@,
            ) implies m.entries@[p].action is Fresh by {
            if p < kept.len() {
                assert(kept[p] == m.entries@[p]);
                let z = choose|z: int|
                    0 <= z < e.entries@.len() && (#[trigger] e.entries@[z]).key@ == kept[p].key@;
                assert(has_key(e.entries@, m.entries@[p].key@));
            }
        }
    }
    m
}

/// Merge one item of a table, according to its structure.
pub fn merge_item(e: &TomlItem, f: &TomlItem) -> (a: ItemAction)
    requires
        valid_item(*e),
        valid_item(*f),
    ensures
        item_merged(*e, *f, a),
    decreases e,
{
    match (e, f) {
        (TomlItem::Table(x), TomlItem::Table(y)) => ItemAction::Table(merge_table(x, y)),
        (TomlItem::Tables(x), TomlItem::Tables(y)) => ItemAction::Tables(
            merge_array_of_tables(x, y),
        ),
        (TomlItem::Value(x), TomlItem::Value(y)) => if values_equal(x, y) {
            ItemAction::Keep
        } else {
            ItemAction::Change
        },
        (TomlItem::Value(TomlValue::Inline(x)), TomlItem::Table(y)) => if is_flat(&y.entries) {
            ItemAction::Inline(merge_inline_table(x, &y.entries))
        } else {
            ItemAction::Fresh
        },
        _ => ItemAction::Fresh,
    }
}

/// The name of a list entry, if it has one.
fn entry_name<'a>(t: &'a TomlTable) -> (r: Option<&'a String>)
    ensures
        match r {
            Some(s) => entry_name_of(*t) == Some(s@),
            None => entry_name_of(*t) is None,
        },
{
    let mut i: usize = 0;
    while i < t.entries.len()
        invariant
            i <= t.entries@.len(),
            entry_name_of(*t) == name_from(t.entries@, i as int),
        decreases t.entries@.len() - i,
    {
        if same_text(t.entries[i].key.as_str(), "name") {
            return match &t.entries[i].item {
                TomlItem::Value(TomlValue::Text(s)) => Some(s),
                _ => None,
            };
        }
        i += 1;
    }
    None
}

/// Sync a list of tables. Fresh entries are matched to their counterpart on
/// disk by name first, so that deleting or reordering entries keeps each
/// survivor's comments, and by position where there is no usable name. Fresh
/// entries without a match are appended; entries on disk without one go.
fn merge_array_of_tables(e: &Vec<TomlTable>, f: &Vec<TomlTable>) -> (v: Vec<ListedTable>)
    requires
        forall|i: int| 0 <= i < e@.len() ==> valid_table(#[trigger] e@[i]),
        forall|i: int| 0 <= i < f@.len() ==> valid_table(#[trigger] f@[i]),
    ensures
        v@.len() == f@.len(),
        forall|j: int|
            0 <= j < f@.len() ==> listed_merged(
                *e,
                f@[j],
                partners(e@, f@, f@.len())[j],
                #[trigger] v@[j],
            ),
    decreases e,
{
    let mut consumed: Vec<bool> = Vec::new();
    let mut k: usize = 0;
    while k < e.len()
        invariant
            k <= e@.len(),
            consumed@.len() == k,
            forall|q: int| 0 <= q < k ==> !#[trigger] consumed@[q],
        decreases e@.len() - k,
    {
        consumed.push(false);
        k += 1;
    }
    let mut v: Vec<ListedTable> = Vec::new();
    let mut j: usize = 0;
    while j < f.len()
        invariant
            j <= f@.len(),
            v@.len() == j,
            consumed@.len() == e@.len(),
            partners(e@, f@, j as nat).len() == j,
            forall|q: int|
                0 <= q < e@.len() ==> #[trigger] consumed@[q] == partners(
                    e@,
                    f@,
                    j as nat,
                ).contains(Some(q)),
            forall|i: int| 0 <= i < e@.len() ==> valid_table(#[trigger] e@[i]),
            forall|i: int| 0 <= i < f@.len() ==> valid_table(#[trigger] f@[i]),
            forall|q: int|
                0 <= q < j ==> listed_merged(
                    *e,
                    f@[q],
                    partners(e@, f@, j as nat)[q],
                    #[trigger] v@[q],
                ),
        decreases f@.len() - j,
    {
        let ghost used = partners(e@, f@, j as nat);
        let mut matched: Option<usize> = None;
        match entry_name(&f[j]) {
            Some(name) => {
                let mut i: usize = 0;
                while i < e.len() && matched.is_none()
                    invariant
                        i <= e@.len(),
                        consumed@.len() == e@.len(),
                        entry_name_of(f@[j as int]) == Some(name@),
                        used == partners(e@, f@, j as nat),
                        forall|q: int|
                            0 <= q < e@.len() ==> #[trigger] consumed@[q] == used.contains(Some(q)),
                        match matched {
                            Some(z) => z < e@.len() && named_from(e@, name@, used, 0) == Some(
                                z as int,
                            ),
                            None => named_from(e@, name@, used, 0) == named_from(
                                e@,
                                name@,
                                used,
                                i as int,
                            ),
                        },
                    decreases e@.len() - i,
                {
                    assert(consumed@[i as int] == used.contains(Some(i as int)));
                    if !consumed[i] {
                        match entry_name(&e[i]) {
                            Some(other) => {
                                if same_text(other.as_str(), name.as_str()) {
                                    matched = Some(i);
                                }
                            },
                            None => {},
                        }
                    }
                    i += 1;
                }
            },
            None => {
                if j < e.len() && !consumed[j] {
                    matched = Some(j);
                }
            },
        }
        assert(match matched {
            Some(z) => z < e@.len() && partner(e@, f@, used, j as int) == Some(z as int),
            None => partner(e@, f@, used, j as int) is None,
        });
        let ghost next = used.push(partner(e@, f@, used, j as int));
        match matched {
            Some(z) => {
                assert(decreases_to!(e => e@[z as int]));
                let m = merge_table(&e[z], &f[j]);
                let ghost before = consumed@;
                consumed.set(z, true);
                v.push(ListedTable::Existing(z, m));
                proof {
                    assert forall|q: int| 0 <= q < e@.len() implies #[trigger] consumed@[q]
                        == next.contains(Some(q)) by {
                        if q == z {
                            assert(next[j as int] == Some(q));
                        } else {
                            assert(before[q] == used.contains(Some(q)));
                            contains_push(used, partner(e@, f@, used, j as int), Some(q));
                        }
                    }
                }
            },
            None => {
                v.push(ListedTable::Fresh);
                proof {
                    assert forall|q: int| 0 <= q < e@.len() implies #[trigger] consumed@[q]
                        == next.contains(Some(q)) by {
                        contains_push(used, partner(e@, f@, used, j as int), Some(q));
                    }
                }
            },
        }
        j += 1;
    }
    v
}

proof fn contains_push(s: Seq<Option<int>>, x: Option<int>, y: Option<int>)
    requires
        x != y,
    ensures
        s.push(x).contains(y) == s.contains(y),
{
    if s.contains(y) {
        let i = choose|i: int| 0 <= i < s.len() && s[i] == y;
        assert(s.push(x)[i] == y);
    }
    if s.push(x).contains(y) {
        let i = choose|i: int| 0 <= i < s.push(x).len() && s.push(x)[i] == y;
        assert(s[i] == y);
    }
}

/// Sync an inline table that the user wrote against the flat table that stands
/// for the same section.
fn merge_inline_table(e: &[ValueEntry], f: &[ItemEntry]) -> (v: Vec<ValuePlan>)
    requires
        distinct_value_keys(e@),
        distinct_keys(f@),
        flat(f@),
    ensures
        inline_merged(e@, f@, v@),
{
    let mut v: Vec<ValuePlan> = Vec::new();
    let mut i: usize = 0;
    assert(value_plan_keys(v@) =~= kept_value_keys(e@, f@, 0));
    while i < e.len()
        invariant
            i <= e@.len(),
            distinct_value_keys(e@),
            distinct_keys(f@),
            flat(f@),
            value_plan_keys(v@) == kept_value_keys(e@, f@, i as nat),
            forall|p: int|
                0 <= p < v@.len() ==> exists|q: int|
                    0 <= q < i && (#[trigger] e@[q]).key@ == (#[trigger] v@[p]).key@,
            forall|p: int, q: int, j: int|
                #![trigger v@[p], e@[q], f@[j]]
                0 <= p < v@.len() && 0 <= q < i && 0 <= j < f@.len() && v@[p].key@ == e@[q].key@
                    && v@[p].key@ == f@[j].key@ ==> v@[p].action == (if same_value(
                    e@[q].value,
                    f@[j].item->Value_0,
                ) {
                    ValueAction::Keep
                } else {
                    ValueAction::Change
                }),
        decreases e@.len() - i,
    {
        let ghost before = v@;
        match find_entry(f, e[i].key.as_str()) {
            Some(j) => {
                assert(f@[j as int].item is Value);
                let action = match &f[j].item {
                    TomlItem::Value(y) => if values_equal(&e[i].value, y) {
                        ValueAction::Keep
                    } else {
                        ValueAction::Change
                    },
                    _ => ValueAction::Fresh,
                };
                v.push(ValuePlan { key: e[i].key.clone(), action });
                assert(value_plan_keys(v@) =~= value_plan_keys(before).push(e@[i as int].key@));
                proof {
                    assert forall|p: int, q: int, k: int|
                        #![trigger v@[p], e@[q], f@[k]]
                        0 <= p < v@.len() && 0 <= q < i + 1 && 0 <= k < f@.len() && v@[p].key@
                            == e@[q].key@ && v@[p].key@ == f@[k].key@ implies v@[p].action == (
                    if same_value(e@[q].value, f@[k].item->Value_0) {
                        ValueAction::Keep
                    } else {
                        ValueAction::Change
                    }) by {
                        if p < before.len() {
                            assert(before[p] == v@[p]);
                            if q == i {
                                let z = choose|z: int|
                                    0 <= z < i && (#[trigger] e@[z]).key@ == before[p].key@;
                                assert(e@[z].key@ == e@[q].key@);
                            }
                        } else {
                            assert(q == i);
                            assert(k == j);
                        }
                    }
                    assert forall|p: int| 0 <= p < v@.len() implies exists|q: int|
                        0 <= q < i + 1 && (#[trigger] e@[q]).key@ == (#[trigger] v@[p]).key@ by {
                        if p < before.len() {
                            let z = choose|z: int|
                                0 <= z < i && (#[trigger] e@[z]).key@ == before[p].key@;
                            assert(e@[z].key@ == v@[p].key@);
                        } else {
                            assert(e@[i as int].key@ == v@[p].key@);
                        }
                    }
                }
            },
            None => {
                proof {
                    assert forall|p: int, q: int, k: int|
                        #![trigger v@[p], e@[q], f@[k]]
                        0 <= p < v@.len() && 0 <= q < i + 1 && 0 <= k < f@.len() && v@[p].key@
                            == e@[q].key@ && v@[p].key@ == f@[k].key@ implies v@[p].action == (
                    if same_value(e@[q].value, f@[k].item->Value_0) {
                        ValueAction::Keep
                    } else {
                        ValueAction::Change
                    }) by {
                        if q == i {
                            assert(has_key(f@, e@[i as int].key@));
                        }
                    }
                }
            },
        }
        i += 1;
    }
    let ghost kept = v@;
    let mut j: usize = 0;
    assert(value_plan_keys(kept) =~= value_plan_keys(kept) + new_value_keys(e@, f@, 0));
    while j < f.len()
        invariant
            j <= f@.len(),
            value_plan_keys(kept) == kept_value_keys(e@, f@, e@.len()),
            value_plan_keys(v@) == value_plan_keys(kept) + new_value_keys(e@, f@, j as nat),
            kept.len() <= v@.len(),
            forall|p: int| 0 <= p < kept.len() ==> #[trigger] v@[p] == kept[p],
            forall|p: int|
                kept.len() <= p < v@.len() ==> !has_value_key(e@, (#[trigger] v@[p]).key@)
                    && v@[p].action == ValueAction::Fresh,
        decreases f@.len() - j,
    {
        let ghost before = v@;
        match find_value(e, f[j].key.as_str()) {
            Some(_) => {
                assert(has_value_key(e@, f@[j as int].key@));
            },
            None => {
                v.push(ValuePlan { key: f[j].key.clone(), action: ValueAction::Fresh });
                assert(value_plan_keys(v@) =~= value_plan_keys(before).push(f@[j as int].key@));
                assert(value_plan_keys(v@) =~= value_plan_keys(kept) + new_value_keys(
                    e@,
                    f@,
                    (j + 1) as nat,
                ));
            },
        }
        j += 1;
    }
    proof {
        assert forall|p: int, q: int, k: int|
            #![trigger v@[p], e@[q], f@[k]]
            0 <= p < v@.len() && 0 <= q < e@.len() && 0 <= k < f@.len() && v@[p].key@ == e@[q].key@
                && v@[p].key@ == f@[k].key@ implies v@[p].action == (if same_value(
            e@[q].value,
            f@[k].item->Value_0,
        ) {
            ValueAction::Keep
        } else {
            ValueAction::Change
        }) by {
            if p < kept.len() {
                assert(kept[p] == v@[p]);
            } else {
                assert(has_value_key(e@, v@[p].key@));
            }
        }
        assert forall|p: int|
            0 <= p < v@.len() && !has_value_key(e@, (#[trigger] v@[p]).key@) implies v@[p].action
            == ValueAction::Fresh by {
            if p < kept.len() {
                assert(kept[p] == v@[p]);
                let z = choose|z: int|
                    0 <= z < e@.len() && (#[trigger] e@[z]).key@ == kept[p].key@;
                assert(has_value_key(e@, v@[p].key@));
            }
        }
    }
    v
}

} // verus!
