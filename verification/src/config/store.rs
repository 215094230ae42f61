//! Storing the configuration: what is written where.

use crate::config::document::{merge_table, table_merged, valid_table, TablePlan};
use crate::config::document_laws::{
    document_holds_its_own_values, merged_document_holds_the_values, regular_table, table_outcome,
};
use crate::config::meaning::{kept_document_says_the_same, table_is};
use crate::config::toml_text::{read_document, reprint, toml_document, toml_reprint};
use crate::config::unchanged::{already_holds, table_holds};
use crate::text::{decimal, decimal_text};
use vstd::prelude::*;

verus! {

/// What reading the configuration file gave.
#[derive(Debug)]
pub enum DiskRead {
    /// The file's text.
    Text(String),
    /// There is no such file.
    Missing,
    /// The file cannot be read.
    Failed,
}

/// What to write.
#[derive(Debug)]
pub enum WriteAction {
    /// The text on disk, with these changes.
    Merge(TablePlan),
    /// This text: the document on disk, which holds the values already.
    Rewrite(String),
    /// The fresh text as it is: there is nothing to preserve.
    WriteFresh,
    /// The fresh text as it is, once the file on disk, which is no TOML and
    /// the only copy of the user's edits, has been saved as a backup.
    BackUpAndWriteFresh,
    /// Nothing: the fresh text is no TOML.
    UnreadableFresh,
    /// Nothing: the file on disk could not be read.
    Fail,
}

/// The text that is written where none of the text on disk has to be merged
/// with fresh values: there is no file, or it is no TOML, or it holds the
/// values already.
pub open spec fn text_written(existing: Option<Seq<char>>, fresh: Seq<char>) -> Option<Seq<char>> {
    match existing {
        None => Some(fresh),
        Some(t) => match (toml_document(t), toml_document(fresh)) {
            (None, _) => Some(fresh),
            (Some(e), Some(f)) => if table_holds(e, f) {
                toml_reprint(t)
            } else {
                None
            },
            (Some(_), None) => None,
        },
    }
}

/// Decide how to store `fresh`, the serialized configuration, over what is on
/// disk. An existing file is updated in place, so that the user's comments,
/// order and formatting survive.
pub fn plan_write(existing: &DiskRead, fresh: &str) -> (r: WriteAction)
    ensures
        match *existing {
            DiskRead::Missing => r is WriteFresh,
            DiskRead::Failed => r is Fail,
            DiskRead::Text(t) => match (toml_document(t@), toml_document(fresh@)) {
                (None, _) => r is BackUpAndWriteFresh,
                (Some(_), None) => r is UnreadableFresh,
                (Some(e), Some(f)) => {
                    &&& valid_table(e)
                    &&& valid_table(f)
                    &&& if table_holds(e, f) {
                        r matches WriteAction::Rewrite(s) && Some(s@) == text_written(
                            Some(t@),
                            fresh@,
                        )
                    } else {
                        r matches WriteAction::Merge(m) && table_merged(e, f, m)
                    }
                },
            },
        },
{
    match existing {
        DiskRead::Missing => WriteAction::WriteFresh,
        DiskRead::Failed => WriteAction::Fail,
        DiskRead::Text(t) => match read_document(t.as_str()) {
            None => WriteAction::BackUpAndWriteFresh,
            Some(e) => match read_document(fresh) {
                None => WriteAction::UnreadableFresh,
                Some(f) => {
                    if already_holds(&e, &f) {
                        if let Some(s) = reprint(t.as_str()) {
                            return WriteAction::Rewrite(s);
                        }
                    }
                    WriteAction::Merge(merge_table(&e, &f))
                },
            },
        },
    }
}

/// Saving the same configuration again leaves exactly the bytes that the first
/// save wrote: where those bytes, `written`, read as the document that the
/// first plan makes, and are as that document is printed. A double that is not
/// a number is left out: every save puts it in place anew.
pub proof fn second_write_keeps_the_bytes(
    existing: Seq<char>,
    fresh: Seq<char>,
    m: TablePlan,
    written: Seq<char>,
)
    ensures
        match (toml_document(existing), toml_document(fresh), toml_document(written)) {
            (Some(e), Some(f), Some(r)) => {
                &&& valid_table(e) && valid_table(f) && regular_table(f)
                &&& table_merged(e, f, m) && table_outcome(e, f, m, r)
                &&& toml_reprint(written) == Some(written)
            },
            _ => false,
        } ==> text_written(Some(written), fresh) == Some(written),
{
    if let (Some(e), Some(f), Some(r)) = (
        toml_document(existing),
        toml_document(fresh),
        toml_document(written),
    ) {
        if valid_table(e) && valid_table(f) && regular_table(f) && table_merged(e, f, m)
            && table_outcome(e, f, m, r) {
            merged_document_holds_the_values(e, f, m, r);
        }
    }
}

/// The same of a file that was not there, or was no TOML, before the first
/// save: it was written as the fresh text, and stays that.
pub proof fn first_write_is_kept(existing: Option<Seq<char>>, fresh: Seq<char>)
    ensures
        match toml_document(fresh) {
            Some(f) => valid_table(f) && regular_table(f) && toml_reprint(fresh) == Some(fresh),
            None => false,
        } && (existing matches Some(t) ==> toml_document(t) is None) ==> {
            &&& text_written(existing, fresh) == Some(fresh)
            &&& text_written(Some(fresh), fresh) == Some(fresh)
        },
{
    if let Some(f) = toml_document(fresh) {
        if valid_table(f) && regular_table(f) {
            document_holds_its_own_values(f);
        }
    }
}

/// The name of the backup beside a file.
pub fn backup_name(file_name: &str) -> (r: String)
    ensures
        r@ == file_name@ + ".bak"@,
{
    let mut s = file_name.to_owned();
    s.push_str(".bak");
    s
}

/// The name of the file that is written before it takes a file's place. It
/// differs from process to process.
pub fn temp_name(file_name: &str, process_id: u32) -> (r: String)
    ensures
        r@ == "."@ + file_name@ + "."@ + decimal(process_id as nat) + ".tmp"@,
{
    let mut s = ".".to_owned();
    s.push_str(file_name);
    s.push_str(".");
    s.push_str(decimal_text(process_id as u64).as_str());
    s.push_str(".tmp");
    s
}

/// Where there is nothing to preserve, the fresh text is written as it is; a
/// document that holds the values already is not changed in what it says; and
/// nothing is written in place of a document by a fresh text that is none.
pub proof fn nothing_is_lost_by_writing(existing: Seq<char>, fresh: Seq<char>)
    ensures
        text_written(None, fresh) == Some(fresh),
        toml_document(existing) is None ==> text_written(Some(existing), fresh) == Some(fresh),
        toml_document(existing) is Some && toml_document(fresh) is None ==> text_written(
            Some(existing),
            fresh,
        ) is None,
        (toml_document(existing) matches Some(e) && toml_document(fresh) is Some && table_holds(
            e,
            toml_document(fresh)->0,
        )) ==> text_written(Some(existing), fresh) == toml_reprint(existing) && table_is(
            toml_document(existing)->0,
            toml_document(fresh)->0,
        ),
{
    if toml_document(existing) is Some && toml_document(fresh) is Some {
        let e = toml_document(existing)->0;
        let f = toml_document(fresh)->0;
        if table_holds(e, f) {
            kept_document_says_the_same(e, f);
        }
    }
}

} // verus!
