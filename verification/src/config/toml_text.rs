//! Reading TOML text.

use crate::config::document::{
    valid_table, ItemEntry, TomlItem, TomlTable, TomlValue, ValueEntry,
};
use crate::text::opt_text;
use vstd::prelude::*;

verus! {

/// A parsed value of the `toml` crate.
#[verifier::external_type_specification]
#[verifier::external_body]
pub struct ExParsedValue(toml::Value);

/// A value of a `toml_edit` document.
#[verifier::external_type_specification]
#[verifier::external_body]
pub struct ExDocumentValue(toml_edit::Value);

/// An item of a `toml_edit` document.
#[verifier::external_type_specification]
#[verifier::external_body]
pub struct ExDocumentItem(toml_edit::Item);

/// A table of a `toml_edit` document.
#[verifier::external_type_specification]
#[verifier::external_body]
pub struct ExDocumentTable(toml_edit::Table);

/// The keys and values that `str::parse::<toml::Table>` reads from a text, or
/// nothing where the text is no TOML.
pub uninterp spec fn toml_entries(contents: Seq<char>) -> Option<Seq<ValueEntry>>;

/// The document that `str::parse::<toml_edit::DocumentMut>` reads from a text,
/// or nothing where the text is no TOML.
pub uninterp spec fn toml_document(contents: Seq<char>) -> Option<TomlTable>;

/// What the document that `str::parse::<toml_edit::DocumentMut>` reads from a
/// text is printed as, or nothing where the text is no TOML.
pub uninterp spec fn toml_reprint(contents: Seq<char>) -> Option<Seq<char>>;

/// The value in the library's own form: each variant of `toml::Value` with
/// what it holds. Nothing is stated of the result; [`read_entries`] names it.
#[verifier::external_body]
fn parsed_value(v: toml::Value) -> TomlValue {
    match v {
        toml::Value::String(s) => TomlValue::Text(s),
        toml::Value::Integer(n) => TomlValue::Integer(n),
        toml::Value::Float(x) => TomlValue::Float(x.to_bits()),
        toml::Value::Boolean(b) => TomlValue::Boolean(b),
        toml::Value::Datetime(d) => TomlValue::Datetime(d.to_string()),
        toml::Value::Array(a) => TomlValue::Array(a.into_iter().map(parsed_value).collect()),
        toml::Value::Table(t) => TomlValue::Inline(
            t.into_iter().map(|(key, v)| ValueEntry { key, value: parsed_value(v) }).collect(),
        ),
    }
}

/// `str::parse::<toml::Table>`: the keys and values of the text, in the order
/// of the parsed map. They depend on the text alone.
#[verifier::external_body]
pub(crate) fn read_entries(contents: &str) -> (r: Option<Vec<ValueEntry>>)
    ensures
        match r {
            Some(v) => toml_entries(contents@) == Some(v@),
            None => toml_entries(contents@) is None,
        },
{
    let table = contents.parse::<toml::Table>().ok()?;
    Some(table.into_iter().map(|(key, v)| ValueEntry { key, value: parsed_value(v) }).collect())
}

/// The value in the library's own form: each variant of `toml_edit::Value`
/// with what it holds. Nothing is stated of the result; [`read_document`]
/// names it.
#[verifier::external_body]
fn document_value(v: &toml_edit::Value) -> TomlValue {
    match v {
        toml_edit::Value::String(s) => TomlValue::Text(s.value().clone()),
        toml_edit::Value::Integer(n) => TomlValue::Integer(*n.value()),
        toml_edit::Value::Float(x) => TomlValue::Float(x.value().to_bits()),
        toml_edit::Value::Boolean(b) => TomlValue::Boolean(*b.value()),
        toml_edit::Value::Datetime(d) => TomlValue::Datetime(d.value().to_string()),
        toml_edit::Value::Array(a) => TomlValue::Array(a.iter().map(document_value).collect()),
        toml_edit::Value::InlineTable(t) => TomlValue::Inline(
            t.iter().map(|(k, v)| ValueEntry { key: k.to_owned(), value: document_value(v) })
                .collect(),
        ),
    }
}

/// The item in the library's own form: each variant of `toml_edit::Item` with
/// what it holds. The tables of a document have no item without a value.
#[verifier::external_body]
fn document_item(item: &toml_edit::Item) -> TomlItem {
    match item {
        toml_edit::Item::None => TomlItem::Tables(Vec::new()),
        toml_edit::Item::Value(v) => TomlItem::Value(document_value(v)),
        toml_edit::Item::Table(t) => TomlItem::Table(document_table(t)),
        toml_edit::Item::ArrayOfTables(a) => TomlItem::Tables(
            a.iter().map(document_table).collect(),
        ),
    }
}

/// The table in the library's own form: whether it is implicit, and its keys
/// and items in order.
#[verifier::external_body]
fn document_table(t: &toml_edit::Table) -> TomlTable {
    let entries = t.iter()
        .map(|(k, item)| ItemEntry { key: k.to_owned(), item: document_item(item) })
        .collect();
    TomlTable { implicit: t.is_implicit(), entries }
}

/// `str::parse::<toml_edit::DocumentMut>`: the tables, keys and values of the
/// text. They depend on the text alone, and no table has a key twice.
#[verifier::external_body]
pub(crate) fn read_document(contents: &str) -> (r: Option<TomlTable>)
    ensures
        r == toml_document(contents@),
        r matches Some(t) ==> valid_table(t),
{
    let document = contents.parse::<toml_edit::DocumentMut>().ok()?;
    Some(document_table(document.as_table()))
}

/// `DocumentMut::to_string`: the document that is read from the text, printed
/// as it is. What is printed depends on the text alone, and there is something
/// to print exactly where the text is read as a document. That a printed text
/// is printed again as it is, is not claimed.
#[verifier::external_body]
pub(crate) fn reprint(contents: &str) -> (r: Option<String>)
    ensures
        opt_text(r) == toml_reprint(contents@),
        r is Some == toml_document(contents@) is Some,
{
    Some(contents.parse::<toml_edit::DocumentMut>().ok()?.to_string())
}

} // verus!
