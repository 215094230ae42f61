//! Keys of a configuration file that the configuration does not know.

use crate::config::document::{TomlValue, ValueEntry};
use crate::config::toml_text::{read_entries, toml_entries};
use crate::text::{decimal, decimal_text, same_text, sort_distinct, sorted_set, texts};
use vstd::prelude::*;

verus! {

/// The value under a key, looked for from the `i`-th entry on.
pub open spec fn lookup_from(entries: Seq<ValueEntry>, key: Seq<char>, i: int) -> Option<TomlValue>
    decreases entries.len() - i,
{
    if i >= entries.len() {
        None
    } else if entries[i].key@ == key {
        Some(entries[i].value)
    } else {
        lookup_from(entries, key, i + 1)
    }
}

fn lookup<'a>(entries: &'a [ValueEntry], key: &str) -> (r: Option<&'a TomlValue>)
    ensures
        match r {
            Some(v) => lookup_from(entries@, key@, 0) == Some(*v),
            None => lookup_from(entries@, key@, 0) is None,
        },
{
    let mut i: usize = 0;
    while i < entries.len()
        invariant
            i <= entries@.len(),
            lookup_from(entries@, key@, 0) == lookup_from(entries@, key@, i as int),
        decreases entries@.len() - i,
    {
        if same_text(entries[i].key.as_str(), key) {
            return Some(&entries[i].value);
        }
        i += 1;
    }
    None
}

/// The paths of all keys in the first `n` entries that hold no table, and of
/// those in the tables they hold.
pub open spec fn leaves(t: Vec<ValueEntry>, prefix: Seq<char>, n: nat) -> Seq<Seq<char>>
    decreases t, n,
{
    if n == 0 || n > t@.len() {
        seq![]
    } else {
        let path = prefix + t@[n - 1].key@;
        leaves(t, prefix, (n - 1) as nat) + (match t@[n - 1].value {
            TomlValue::Inline(inner) => leaves(inner, path + "."@, inner@.len()),
            _ => seq![path],
        })
    }
}

/// The paths of the keys in the first `n` entries of a document that the known
/// configuration lacks. Where a whole section is unknown, its keys are named.
pub open spec fn unknown_in(
    doc: Vec<ValueEntry>,
    known: Seq<ValueEntry>,
    prefix: Seq<char>,
    n: nat,
) -> Seq<Seq<char>>
    decreases doc, n,
{
    if n == 0 || n > doc@.len() {
        seq![]
    } else {
        let path = prefix + doc@[n - 1].key@;
        unknown_in(doc, known, prefix, (n - 1) as nat) + (match (
            doc@[n - 1].value,
            lookup_from(known, doc@[n - 1].key@, 0),
        ) {
            (TomlValue::Inline(inner), None) => leaves(inner, path + "."@, inner@.len()),
            (_, None) => seq![path],
            (TomlValue::Inline(inner), Some(TomlValue::Inline(k))) => unknown_in(
                inner,
                k@,
                path + "."@,
                inner@.len(),
            ),
            (TomlValue::Array(items), Some(TomlValue::Array(k))) => unknown_in_list(
                items,
                k@,
                path,
                items@.len(),
            ),
            _ => seq![],
        })
    }
}

/// The paths of the unknown keys in the tables among the first `n` members of
/// a list, each held against the known table at its place.
pub open spec fn unknown_in_list(
    items: Vec<TomlValue>,
    known: Seq<TomlValue>,
    path: Seq<char>,
    n: nat,
) -> Seq<Seq<char>>
    decreases items, n,
{
    if n == 0 || n > items@.len() {
        seq![]
    } else {
        unknown_in_list(items, known, path, (n - 1) as nat) + (if n - 1 < known.len() {
            match (items@[n - 1], known[n - 1]) {
                (TomlValue::Inline(inner), TomlValue::Inline(k)) => unknown_in(
                    inner,
                    k@,
                    path + "["@ + decimal((n - 1) as nat) + "]."@,
                    inner@.len(),
                ),
                _ => seq![],
            }
        } else {
            seq![]
        })
    }
}

/// `a` and `b`, one after the other.
fn two(a: &str, b: &str) -> (r: String)
    ensures
        r@ == a@ + b@,
{
    let mut s = a.to_owned();
    s.push_str(b);
    s
}

fn push_text(out: &mut Vec<String>, s: String)
    ensures
        texts(final(out)@) == texts(old(out)@).push(s@),
{
    let ghost before = texts(out@);
    out.push(s);
    assert(texts(out@) =~= before.push(s@));
}

/// Collect every leaf key of `t` (with `prefix`) into `out`.
fn collect_unknown_leaves(t: &Vec<ValueEntry>, prefix: &str, out: &mut Vec<String>)
    ensures
        texts(final(out)@) == texts(old(out)@) + leaves(*t, prefix@, t@.len()),
    decreases t,
{
    let ghost start = texts(out@);
    let mut i: usize = 0;
    assert(start =~= start + leaves(*t, prefix@, 0));
    while i < t.len()
        invariant
            i <= t@.len(),
            texts(out@) == start + leaves(*t, prefix@, i as nat),
        decreases t@.len() - i,
    {
        let path = two(prefix, t[i].key.as_str());
        assert(decreases_to!(t => t@[i as int]));
        match &t[i].value {
            TomlValue::Inline(inner) => {
                assert(decreases_to!(t@[i as int] => t@[i as int].value));
                collect_unknown_leaves(inner, two(path.as_str(), ".").as_str(), out);
            },
            _ => push_text(out, path),
        }
        i += 1;
        assert(texts(out@) =~= start + leaves(*t, prefix@, i as nat));
    }
}

/// Compare a parsed table against the known one, appending the paths of
/// unknown keys to `out`.
pub fn diff_config_tables(
    doc: &Vec<ValueEntry>,
    known: &[ValueEntry],
    prefix: &str,
    out: &mut Vec<String>,
)
    ensures
        texts(final(out)@) == texts(old(out)@) + unknown_in(*doc, known@, prefix@, doc@.len()),
    decreases doc,
{
    let ghost start = texts(out@);
    let mut i: usize = 0;
    assert(start =~= start + unknown_in(*doc, known@, prefix@, 0));
    while i < doc.len()
        invariant
            i <= doc@.len(),
            texts(out@) == start + unknown_in(*doc, known@, prefix@, i as nat),
        decreases doc@.len() - i,
    {
        let path = two(prefix, doc[i].key.as_str());
        assert(decreases_to!(doc => doc@[i as int]));
        assert(decreases_to!(doc@[i as int] => doc@[i as int].value));
        match (&doc[i].value, lookup(known, doc[i].key.as_str())) {
            (TomlValue::Inline(inner), None) => {
                collect_unknown_leaves(inner, two(path.as_str(), ".").as_str(), out);
            },
            (_, None) => {
                push_text(out, path);
            },
            (TomlValue::Inline(inner), Some(TomlValue::Inline(k))) => {
                diff_config_tables(inner, k, two(path.as_str(), ".").as_str(), out);
            },
            (TomlValue::Array(items), Some(TomlValue::Array(k))) => {
                diff_config_lists(items, k, path.as_str(), out);
            },
            _ => {},
        }
        i += 1;
        assert(texts(out@) =~= start + unknown_in(*doc, known@, prefix@, i as nat));
    }
}

fn diff_config_lists(
    items: &Vec<TomlValue>,
    known: &[TomlValue],
    path: &str,
    out: &mut Vec<String>,
)
    ensures
        texts(final(out)@) == texts(old(out)@) + unknown_in_list(
            *items,
            known@,
            path@,
            items@.len(),
        ),
    decreases items,
{
    let ghost start = texts(out@);
    let mut i: usize = 0;
    assert(start =~= start + unknown_in_list(*items, known@, path@, 0));
    while i < items.len()
        invariant
            i <= items@.len(),
            texts(out@) == start + unknown_in_list(*items, known@, path@, i as nat),
        decreases items@.len() - i,
    {
        assert(decreases_to!(items => items@[i as int]));
        if i < known.len() {
            match (&items[i], &known[i]) {
                (TomlValue::Inline(inner), TomlValue::Inline(k)) => {
                    let mut p = two(path, "[");
                    p.push_str(decimal_text(i as u64).as_str());
                    p.push_str("].");
                    diff_config_tables(inner, k, p.as_str(), out);
                },
                _ => {},
            }
        }
        i += 1;
        assert(texts(out@) =~= start + unknown_in_list(*items, known@, path@, i as nat));
    }
}

/// The unknown keys of a parsed document, sorted and each named once.
pub fn unknown_keys(doc: &Vec<ValueEntry>, known: &[ValueEntry]) -> (r: Vec<String>)
    ensures
        sorted_set(texts(r@), unknown_in(*doc, known@, ""@, doc@.len())),
{
    let mut out: Vec<String> = Vec::new();
    assert(texts(out@) =~= seq![]);
    diff_config_tables(doc, known, "", &mut out);
    assert(texts(out@) =~= unknown_in(*doc, known@, ""@, doc@.len()));
    sort_distinct(&out)
}

/// Keys in a `config.toml` text that the configuration does not know.
///
/// `known` is the configuration that was read from the text, written back as
/// TOML: a key of the text that it lacks is a key that was silently dropped.
/// Nothing is reported where the text is no TOML, or no configuration.
pub fn unknown_config_keys(contents: &str, known: &Option<Vec<ValueEntry>>) -> (r: Vec<String>)
    ensures
        match (toml_entries(contents@), *known) {
            (Some(entries), Some(k)) => exists|doc: Vec<ValueEntry>|
                #![trigger unknown_in(doc, k@, ""@, doc@.len())]
                doc@ == entries && sorted_set(texts(r@), unknown_in(doc, k@, ""@, doc@.len())),
            _ => r@.len() == 0,
        },
{
    match (read_entries(contents), known) {
        (Some(doc), Some(k)) => unknown_keys(&doc, k),
        _ => Vec::new(),
    }
}

proof fn lookup_is_first(entries: Seq<ValueEntry>, key: Seq<char>, i: int, j: int)
    requires
        0 <= i <= j < entries.len(),
        entries[j].key@ == key,
        forall|k: int| i <= k < j ==> (#[trigger] entries[k]).key@ != key,
    ensures
        lookup_from(entries, key, i) == Some(entries[j].value),
    decreases j - i,
{
    if i < j {
        assert(entries[i].key@ != key);
        lookup_is_first(entries, key, i + 1, j);
    }
}

proof fn lookup_finds_nothing(entries: Seq<ValueEntry>, key: Seq<char>, i: int)
    requires
        0 <= i <= entries.len(),
        forall|k: int| i <= k < entries.len() ==> (#[trigger] entries[k]).key@ != key,
    ensures
        lookup_from(entries, key, i) is None,
    decreases entries.len() - i,
{
    if i < entries.len() {
        assert(entries[i].key@ != key);
        lookup_finds_nothing(entries, key, i + 1);
    }
}

proof fn parts_of_unknown(
    doc: Vec<ValueEntry>,
    known: Seq<ValueEntry>,
    prefix: Seq<char>,
    n: nat,
    i: int,
    path: Seq<char>,
)
    requires
        n <= doc@.len(),
        0 <= i < n,
        (unknown_in(doc, known, prefix, (i + 1) as nat).skip(
            unknown_in(doc, known, prefix, i as nat).len() as int,
        )).contains(path),
    ensures
        unknown_in(doc, known, prefix, n).contains(path),
    decreases n,
{
    let now = unknown_in(doc, known, prefix, n);
    let before = unknown_in(doc, known, prefix, (n - 1) as nat);
    if i < n - 1 {
        parts_of_unknown(doc, known, prefix, (n - 1) as nat, i, path);
        let q = choose|q: int| 0 <= q < before.len() && before[q] == path;
        assert(now[q] == path);
    } else {
        let piece = now.skip(before.len() as int);
        let q = choose|q: int| 0 <= q < piece.len() && piece[q] == path;
        assert(now[before.len() + q] == path);
    }
}

/// A key that the known configuration lacks is named, with the way to it; of a
/// whole section that it lacks, every key in it that holds no table.
pub proof fn lacking_keys_are_named(
    doc: Vec<ValueEntry>,
    known: Seq<ValueEntry>,
    prefix: Seq<char>,
    i: int,
    path: Seq<char>,
)
    requires
        0 <= i < doc@.len(),
        forall|k: int| 0 <= k < known.len() ==> (#[trigger] known[k]).key@ != doc@[i].key@,
        match doc@[i].value {
            TomlValue::Inline(inner) => leaves(
                inner,
                prefix + doc@[i].key@ + "."@,
                inner@.len(),
            ).contains(path),
            _ => path == prefix + doc@[i].key@,
        },
    ensures
        unknown_in(doc, known, prefix, doc@.len()).contains(path),
{
    lookup_finds_nothing(known, doc@[i].key@, 0);
    let before = unknown_in(doc, known, prefix, i as nat);
    let now = unknown_in(doc, known, prefix, (i + 1) as nat);
    match doc@[i].value {
        TomlValue::Inline(inner) => {
            let l = leaves(inner, prefix + doc@[i].key@ + "."@, inner@.len());
            assert(now == before + l);
            assert(now.skip(before.len() as int) =~= l);
        },
        _ => {
            assert(now == before + seq![path]);
            assert(now.skip(before.len() as int) =~= seq![path]);
            assert(seq![path][0] == path);
        },
    }
    parts_of_unknown(doc, known, prefix, doc@.len(), i, path);
}

/// What is unknown in a section that the known configuration has as well is
/// named, below the name of the section; and so for a list.
pub proof fn sections_are_searched(
    doc: Vec<ValueEntry>,
    known: Seq<ValueEntry>,
    prefix: Seq<char>,
    i: int,
    j: int,
    path: Seq<char>,
)
    requires
        0 <= i < doc@.len(),
        0 <= j < known.len(),
        known[j].key@ == doc@[i].key@,
        forall|k: int| 0 <= k < j ==> (#[trigger] known[k]).key@ != doc@[i].key@,
        match (doc@[i].value, known[j].value) {
            (TomlValue::Inline(inner), TomlValue::Inline(k)) => unknown_in(
                inner,
                k@,
                prefix + doc@[i].key@ + "."@,
                inner@.len(),
            ).contains(path),
            (TomlValue::Array(items), TomlValue::Array(k)) => unknown_in_list(
                items,
                k@,
                prefix + doc@[i].key@,
                items@.len(),
            ).contains(path),
            _ => false,
        },
    ensures
        unknown_in(doc, known, prefix, doc@.len()).contains(path),
{
    lookup_is_first(known, doc@[i].key@, 0, j);
    let before = unknown_in(doc, known, prefix, i as nat);
    let now = unknown_in(doc, known, prefix, (i + 1) as nat);
    match (doc@[i].value, known[j].value) {
        (TomlValue::Inline(inner), TomlValue::Inline(k)) => {
            let l = unknown_in(inner, k@, prefix + doc@[i].key@ + "."@, inner@.len());
            assert(now == before + l);
            assert(now.skip(before.len() as int) =~= l);
        },
        (TomlValue::Array(items), TomlValue::Array(k)) => {
            let l = unknown_in_list(items, k@, prefix + doc@[i].key@, items@.len());
            assert(now == before + l);
            assert(now.skip(before.len() as int) =~= l);
        },
        _ => {},
    }
    parts_of_unknown(doc, known, prefix, doc@.len(), i, path);
}

/// The tables of a list are held against the known ones at their places, and
/// what is unknown in the one at place `i` is named below that place.
pub proof fn listed_tables_are_searched(
    items: Vec<TomlValue>,
    known: Seq<TomlValue>,
    path: Seq<char>,
    n: nat,
    i: int,
    found: Seq<char>,
)
    requires
        n <= items@.len(),
        0 <= i < n,
        i < known.len(),
        match (items@[i], known[i]) {
            (TomlValue::Inline(inner), TomlValue::Inline(k)) => unknown_in(
                inner,
                k@,
                path + "["@ + decimal(i as nat) + "]."@,
                inner@.len(),
            ).contains(found),
            _ => false,
        },
    ensures
        unknown_in_list(items, known, path, n).contains(found),
    decreases n,
{
    let before = unknown_in_list(items, known, path, (n - 1) as nat);
    let now = unknown_in_list(items, known, path, n);
    if i < n - 1 {
        listed_tables_are_searched(items, known, path, (n - 1) as nat, i, found);
        let q = choose|q: int| 0 <= q < before.len() && before[q] == found;
        assert(now[q] == found);
    } else {
        match (items@[i], known[i]) {
            (TomlValue::Inline(inner), TomlValue::Inline(k)) => {
                let l = unknown_in(inner, k@, path + "["@ + decimal(i as nat) + "]."@, inner@.len());
                assert(now == before + l);
                let q = choose|q: int| 0 <= q < l.len() && l[q] == found;
                assert(now[before.len() + q] == found);
            },
            _ => {},
        }
    }
}

/// Each key of a table that holds no table itself is one of its leaves, and so
/// are the leaves of the tables in it.
pub proof fn leaves_are_the_plain_keys(
    t: Vec<ValueEntry>,
    prefix: Seq<char>,
    n: nat,
    path: Seq<char>,
)
    requires
        n <= t@.len(),
    ensures
        leaves(t, prefix, n).contains(path) <==> exists|i: int|
            0 <= i < n && (match (#[trigger] t@[i]).value {
                TomlValue::Inline(inner) => leaves(
                    inner,
                    prefix + t@[i].key@ + "."@,
                    inner@.len(),
                ).contains(path),
                _ => path == prefix + t@[i].key@,
            }),
    decreases n,
{
    if n > 0 {
        leaves_are_the_plain_keys(t, prefix, (n - 1) as nat, path);
        let before = leaves(t, prefix, (n - 1) as nat);
        let now = leaves(t, prefix, n);
        let e = t@[n - 1];
        let piece = match e.value {
            TomlValue::Inline(inner) => leaves(inner, prefix + e.key@ + "."@, inner@.len()),
            _ => seq![prefix + e.key@],
        };
        assert(now == before + piece);
        if now.contains(path) {
            let q = choose|q: int| 0 <= q < now.len() && now[q] == path;
            if q < before.len() {
                assert(before[q] == path);
            } else {
                assert(piece[q - before.len()] == path);
                assert(piece.contains(path));
                assert(t@[n - 1] == e);
            }
        }
        if before.contains(path) {
            let q = choose|q: int| 0 <= q < before.len() && before[q] == path;
            assert(now[q] == path);
        }
        if piece.contains(path) {
            let q = choose|q: int| 0 <= q < piece.len() && piece[q] == path;
            assert(now[before.len() + q] == path);
        }
        match e.value {
            TomlValue::Inline(inner) => {},
            _ => {
                assert(piece[0] == prefix + e.key@);
                assert(piece.contains(prefix + e.key@));
            },
        }
    }
}

/// Whether no table in a value has a key twice.
pub open spec fn no_key_twice(v: TomlValue) -> bool
    decreases v,
{
    match v {
        TomlValue::Inline(t) => {
            &&& forall|i: int, j: int|
                #![trigger t@[i], t@[j]]
                0 <= i < j < t@.len() ==> t@[i].key@ != t@[j].key@
            &&& forall|i: int| 0 <= i < t@.len() ==> no_key_twice((#[trigger] t@[i]).value)
        },
        TomlValue::Array(items) => forall|i: int|
            0 <= i < items@.len() ==> no_key_twice(#[trigger] items@[i]),
        _ => true,
    }
}

/// A document has no key that is unknown to itself: what was read without loss
/// gives no warning.
pub proof fn known_keys_are_not_named(doc: Vec<ValueEntry>, prefix: Seq<char>, n: nat)
    requires
        n <= doc@.len(),
        no_key_twice(TomlValue::Inline(doc)),
    ensures
        unknown_in(doc, doc@, prefix, n).len() == 0,
    decreases doc, n,
{
    if n > 0 {
        known_keys_are_not_named(doc, prefix, (n - 1) as nat);
        let e = doc@[n - 1];
        assert forall|k: int| 0 <= k < n - 1 implies (#[trigger] doc@[k]).key@ != e.key@ by {
            assert(doc@[n - 1].key@ == e.key@);
        }
        lookup_is_first(doc@, e.key@, 0, n - 1);
        assert(decreases_to!(doc => doc@[n - 1]));
        assert(decreases_to!(doc@[n - 1] => doc@[n - 1].value));
        assert(no_key_twice(doc@[n - 1].value));
        match e.value {
            TomlValue::Inline(inner) => {
                known_keys_are_not_named(inner, prefix + e.key@ + "."@, inner@.len());
            },
            TomlValue::Array(items) => {
                known_lists_are_not_named(items, prefix + e.key@, items@.len());
            },
            _ => {},
        }
    }
}

proof fn known_lists_are_not_named(items: Vec<TomlValue>, path: Seq<char>, n: nat)
    requires
        n <= items@.len(),
        no_key_twice(TomlValue::Array(items)),
    ensures
        unknown_in_list(items, items@, path, n).len() == 0,
    decreases items, n,
{
    if n > 0 {
        known_lists_are_not_named(items, path, (n - 1) as nat);
        assert(decreases_to!(items => items@[n - 1]));
        let whole = TomlValue::Array(items);
        assert(whole->Array_0@[n - 1] == items@[n - 1]);
        assert(no_key_twice(items@[n - 1]));
        match items@[n - 1] {
            TomlValue::Inline(inner) => {
                known_keys_are_not_named(
                    inner,
                    path + "["@ + decimal((n - 1) as nat) + "]."@,
                    inner@.len(),
                );
            },
            _ => {},
        }
    }
}

/// Nothing else is named: where a path is, some key of the document is unknown
/// there, or something below a section or a list that both have.
pub proof fn only_unknown_keys_are_named(
    doc: Vec<ValueEntry>,
    known: Seq<ValueEntry>,
    prefix: Seq<char>,
    n: nat,
    path: Seq<char>,
)
    requires
        n <= doc@.len(),
        unknown_in(doc, known, prefix, n).contains(path),
    ensures
        exists|i: int|
            0 <= i < n && ({
                ||| (forall|k: int|
                    0 <= k < known.len() ==> (#[trigger] known[k]).key@ != doc@[i].key@)
                    && !((#[trigger] doc@[i]).value is Inline) && path == prefix + doc@[i].key@
                ||| (forall|k: int|
                    0 <= k < known.len() ==> (#[trigger] known[k]).key@ != doc@[i].key@)
                    && (doc@[i].value matches TomlValue::Inline(inner) && leaves(
                    inner,
                    prefix + doc@[i].key@ + "."@,
                    inner@.len(),
                ).contains(path))
                ||| exists|j: int|
                    0 <= j < known.len() && (#[trigger] known[j]).key@ == doc@[i].key@ && (match (
                        doc@[i].value,
                        known[j].value,
                    ) {
                        (TomlValue::Inline(inner), TomlValue::Inline(k)) => unknown_in(
                            inner,
                            k@,
                            prefix + doc@[i].key@ + "."@,
                            inner@.len(),
                        ).contains(path),
                        (TomlValue::Array(items), TomlValue::Array(k)) => unknown_in_list(
                            items,
                            k@,
                            prefix + doc@[i].key@,
                            items@.len(),
                        ).contains(path),
                        _ => false,
                    })
            }),
    decreases n,
{
    let now = unknown_in(doc, known, prefix, n);
    let before = unknown_in(doc, known, prefix, (n - 1) as nat);
    assert(n > 0);
    let q = choose|q: int| 0 <= q < now.len() && now[q] == path;
    if q < before.len() {
        assert(before[q] == path);
        only_unknown_keys_are_named(doc, known, prefix, (n - 1) as nat, path);
    } else {
        let e = doc@[n - 1];
        let piece = now.skip(before.len() as int);
        assert(piece[q - before.len()] == path);
        assert(piece.contains(path));
        if exists|k: int| 0 <= k < known.len() && (#[trigger] known[k]).key@ == e.key@ {
            let j = first_with_key(known, e.key@, 0);
            lookup_is_first(known, e.key@, 0, j);
            match (e.value, known[j].value) {
                (TomlValue::Inline(inner), TomlValue::Inline(k)) => {
                    assert(piece =~= unknown_in(inner, k@, prefix + e.key@ + "."@, inner@.len()));
                },
                (TomlValue::Array(items), TomlValue::Array(k)) => {
                    assert(piece =~= unknown_in_list(items, k@, prefix + e.key@, items@.len()));
                },
                _ => {
                    assert(piece.len() == 0);
                },
            }
            assert(known[j].key@ == doc@[n - 1].key@);
        } else {
            lookup_finds_nothing(known, e.key@, 0);
            match e.value {
                TomlValue::Inline(inner) => {
                    assert(piece =~= leaves(inner, prefix + e.key@ + "."@, inner@.len()));
                },
                _ => {
                    assert(piece =~= seq![prefix + e.key@]);
                },
            }
            assert(doc@[n - 1] == e);
        }
    }
}

proof fn first_with_key(known: Seq<ValueEntry>, key: Seq<char>, i: int) -> (j: int)
    requires
        0 <= i,
        exists|k: int| i <= k < known.len() && (#[trigger] known[k]).key@ == key,
    ensures
        i <= j < known.len(),
        known[j].key@ == key,
        forall|k: int| i <= k < j ==> (#[trigger] known[k]).key@ != key,
    decreases known.len() - i,
{
    if known[i].key@ == key {
        i
    } else {
        first_with_key(known, key, i + 1)
    }
}

} // verus!
