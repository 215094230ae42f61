//! What a save does about the vocabulary, which lives in two places: the
//! `vocabulary` list of the configuration and the vocabulary file.

use crate::config::vocabulary::{
    first_occurrences, rendered, survives, vocabulary_round_trip, vocabulary_terms,
};
use crate::text::{
    char_views, clone_texts, join, join_texts, same_text, split_appends, split_char, split_on,
    split_on_nonempty, texts, to_chars, to_text, trim, trim_ends, trim_idempotent, trimmed_chars,
};
use crate::text_laws::separators_part_the_text;
use vstd::prelude::*;

verus! {

/// The first `n` parts that are not blank, without the white space round them.
pub open spec fn filled_parts(parts: Seq<Seq<char>>, n: nat) -> Seq<Seq<char>>
    decreases n,
{
    if n == 0 {
        seq![]
    } else {
        let before = filled_parts(parts, (n - 1) as nat);
        let part = trim(parts[n - 1]);
        if part.len() == 0 {
            before
        } else {
            before.push(part)
        }
    }
}

/// The entries of a comma-separated list.
pub open spec fn csv_entries(input: Seq<char>) -> Seq<Seq<char>> {
    let parts = split_on(input, ',');
    filled_parts(parts, parts.len())
}

/// Parse a comma-separated list, trimming white space and dropping empty
/// entries.
pub fn parse_csv_list(input: &str) -> (r: Vec<String>)
    ensures
        texts(r@) == csv_entries(input@),
{
    let parts = split_char(&to_chars(input), ',');
    let ghost views = char_views(parts@);
    let mut r: Vec<String> = Vec::new();
    let mut i: usize = 0;
    assert(texts(r@) =~= filled_parts(views, 0));
    while i < parts.len()
        invariant
            i <= parts@.len(),
            views == char_views(parts@),
            texts(r@) == filled_parts(views, i as nat),
        decreases parts@.len() - i,
    {
        let ghost before = texts(r@);
        let part = trimmed_chars(&parts[i]);
        assert(part@ == trim(views[i as int]));
        if part.len() != 0 {
            r.push(to_text(&part));
            assert(texts(r@) =~= before.push(part@));
        }
        i += 1;
    }
    r
}

/// A vocabulary list as the editor would hand it back.
pub open spec fn normalized_terms(terms: Seq<Seq<char>>) -> Seq<Seq<char>> {
    csv_entries(join(terms, ", "@))
}

/// A vocabulary list as the editor would hand it back: shown as one line with
/// commas between the terms, and read again from that line.
pub fn normalized_vocabulary(terms: &[String]) -> (r: Vec<String>)
    ensures
        texts(r@) == normalized_terms(texts(terms@)),
{
    parse_csv_list(join_texts(terms, ", ").as_str())
}

fn same_texts(a: &[String], b: &[String]) -> (r: bool)
    ensures
        r == (texts(a@) == texts(b@)),
{
    if a.len() != b.len() {
        assert(texts(a@).len() != texts(b@).len());
        return false;
    }
    let mut i: usize = 0;
    while i < a.len()
        invariant
            i <= a@.len() == b@.len(),
            forall|j: int| 0 <= j < i ==> texts(a@)[j] == texts(b@)[j],
        decreases a@.len() - i,
    {
        if !same_text(a[i].as_str(), b[i].as_str()) {
            assert(texts(a@)[i as int] != texts(b@)[i as int]);
            return false;
        }
        i += 1;
    }
    assert(texts(a@) =~= texts(b@));
    true
}

/// Whether a save moves the vocabulary into the vocabulary file: there is one,
/// and the list was edited.
pub open spec fn migrates(
    use_file: bool,
    baseline: Seq<Seq<char>>,
    current: Seq<Seq<char>>,
) -> bool {
    use_file && normalized_terms(baseline) != normalized_terms(current)
}

/// Whether this save should move the vocabulary into the vocabulary file.
///
/// The move is gated on an actual edit, not just on the file existing. Both
/// lists are compared as the editor would hand them back, so that a pass
/// through the editor that changes nothing is no edit.
pub fn should_migrate_vocabulary(
    use_vocab_file: bool,
    baseline: &[String],
    current: &[String],
) -> (r: bool)
    ensures
        r == migrates(use_vocab_file, texts(baseline@), texts(current@)),
{
    use_vocab_file && !same_texts(&normalized_vocabulary(baseline), &normalized_vocabulary(current))
}

/// Where the vocabulary stood when an editing session started.
///
/// Two lists, because the editor works on the merged view while the
/// configuration only ever held its own half.
#[derive(Debug, Clone)]
pub struct VocabularyBaseline {
    /// The vocabulary file exists and was read. Where it is not so, the file
    /// is never written and edits stay in the configuration.
    pub use_file: bool,
    /// The list of the configuration as it was read, before the merge.
    pub config_toml: Vec<String>,
    /// The merged list that the editor started from.
    pub merged: Vec<String>,
}

/// What a save writes to the two stores, decided in one place: emptying the
/// list of the configuration is only safe because the same save wrote the
/// terms to the file.
#[derive(Debug, PartialEq, Eq)]
pub struct VocabularySavePlan {
    /// The list that the configuration is written with.
    pub config_toml: Vec<String>,
    /// The list that the vocabulary file is written with, or `None` to leave
    /// the file exactly as it is.
    pub vocabulary_txt: Option<Vec<String>>,
}

/// The list that the configuration is written with.
pub open spec fn config_terms(
    use_file: bool,
    config_toml: Seq<Seq<char>>,
    merged: Seq<Seq<char>>,
    current: Seq<Seq<char>>,
) -> Seq<Seq<char>> {
    if migrates(use_file, merged, current) {
        seq![]
    } else if use_file {
        config_toml
    } else {
        current
    }
}

/// The list that the vocabulary file is written with, if it is.
pub open spec fn file_terms(
    use_file: bool,
    merged: Seq<Seq<char>>,
    current: Seq<Seq<char>>,
) -> Option<Seq<Seq<char>>> {
    if migrates(use_file, merged, current) {
        Some(current)
    } else {
        None
    }
}

/// What the list of the configuration should hold after this save: nothing
/// once the file is the single store, its own half where nothing was edited,
/// and the edited list where there is no file.
pub fn config_toml_vocabulary(vocab: &VocabularyBaseline, current: &[String]) -> (r: Vec<String>)
    ensures
        texts(r@) == config_terms(
            vocab.use_file,
            texts(vocab.config_toml@),
            texts(vocab.merged@),
            texts(current@),
        ),
{
    if should_migrate_vocabulary(vocab.use_file, &vocab.merged, current) {
        let r: Vec<String> = Vec::new();
        assert(texts(r@) =~= seq![]);
        r
    } else if vocab.use_file {
        clone_texts(&vocab.config_toml)
    } else {
        clone_texts(current)
    }
}

impl VocabularySavePlan {
    /// What the plan writes to the vocabulary file.
    pub open spec fn file(self) -> Option<Seq<Seq<char>>> {
        match self.vocabulary_txt {
            Some(v) => Some(texts(v@)),
            None => None,
        }
    }
}

/// Decide both halves of a save.
pub fn vocabulary_save_plan(vocab: &VocabularyBaseline, current: &[String]) -> (r: VocabularySavePlan)
    ensures
        texts(r.config_toml@) == config_terms(
            vocab.use_file,
            texts(vocab.config_toml@),
            texts(vocab.merged@),
            texts(current@),
        ),
        r.file() == file_terms(vocab.use_file, texts(vocab.merged@), texts(current@)),
{
    let vocabulary_txt = if should_migrate_vocabulary(vocab.use_file, &vocab.merged, current) {
        Some(clone_texts(current))
    } else {
        None
    };
    VocabularySavePlan { config_toml: config_toml_vocabulary(vocab, current), vocabulary_txt }
}

/// Whether a term comes back from a comma-separated line as it is.
pub open spec fn plain_term(t: Seq<char>) -> bool {
    t.len() > 0 && trim(t) == t && !t.contains(',')
}

proof fn parts_hold_no_separator(s: Seq<char>, sep: char)
    ensures
        forall|i: int| 0 <= i < split_on(s, sep).len() ==> !(#[trigger] split_on(s, sep)[i]).contains(sep),
    decreases s.len(),
{
    split_on_nonempty(s, sep);
    if s.len() > 0 {
        let head = split_on(s.drop_last(), sep);
        parts_hold_no_separator(s.drop_last(), sep);
        split_on_nonempty(s.drop_last(), sep);
        let parts = split_on(s, sep);
        assert forall|i: int| 0 <= i < parts.len() implies !(#[trigger] parts[i]).contains(sep) by {
            if s.last() == sep {
                if i < head.len() {
                    assert(parts[i] == head[i]);
                }
            } else if i < head.len() - 1 {
                assert(parts[i] == head[i]);
            } else {
                let last = head.last();
                assert(parts[i] == last.push(s.last()));
                assert(!head[head.len() - 1].contains(sep));
                if parts[i].contains(sep) {
                    let q = choose|q: int| 0 <= q < parts[i].len() && parts[i][q] == sep;
                    assert(last[q] == sep);
                }
            }
        }
    }
}

proof fn filled_parts_are_plain(parts: Seq<Seq<char>>, n: nat)
    requires
        n <= parts.len(),
        forall|i: int| 0 <= i < parts.len() ==> !(#[trigger] parts[i]).contains(','),
    ensures
        forall|i: int|
            0 <= i < filled_parts(parts, n).len() ==> plain_term(#[trigger] filled_parts(parts, n)[i]),
    decreases n,
{
    if n > 0 {
        filled_parts_are_plain(parts, (n - 1) as nat);
        let part = parts[n - 1];
        trim_idempotent(part);
        trim_ends(part);
        let (a, b) = choose|a: int, b: int|
            0 <= a <= b <= part.len() && trim(part) == #[trigger] part.subrange(a, b);
        if trim(part).contains(',') {
            let q = choose|q: int| 0 <= q < trim(part).len() && trim(part)[q] == ',';
            assert(part[a + q] == ',');
        }
        let before = filled_parts(parts, (n - 1) as nat);
        let now = filled_parts(parts, n);
        assert forall|i: int| 0 <= i < now.len() implies plain_term(#[trigger] now[i]) by {
            if i < before.len() {
                assert(now[i] == before[i]);
            }
        }
    }
}

/// Every entry of a comma-separated list is free of commas, padding and
/// emptiness.
pub proof fn csv_entries_are_plain(input: Seq<char>)
    ensures
        forall|i: int| 0 <= i < csv_entries(input).len() ==> plain_term(#[trigger] csv_entries(input)[i]),
{
    parts_hold_no_separator(input, ',');
    let parts = split_on(input, ',');
    filled_parts_are_plain(parts, parts.len());
}

spec fn spaced(terms: Seq<Seq<char>>) -> Seq<Seq<char>> {
    Seq::new(
        terms.len(),
        |i: int|
            if i == 0 {
                terms[0]
            } else {
                seq![' '] + terms[i]
            },
    )
}

proof fn split_of_join(terms: Seq<Seq<char>>)
    requires
        terms.len() > 0,
        forall|i: int| 0 <= i < terms.len() ==> plain_term(#[trigger] terms[i]),
    ensures
        split_on(join(terms, ", "@), ',') == spaced(terms),
    decreases terms.len(),
{
    reveal_strlit(", ");
    let last = terms.last();
    assert(plain_term(terms[terms.len() - 1]));
    if terms.len() == 1 {
        let empty = Seq::<char>::empty();
        split_appends(empty, last, ',');
        assert(empty + last =~= last);
        assert(split_on(empty, ',') =~= seq![empty]);
        assert(split_on(last, ',') =~= spaced(terms));
    } else {
        let front = terms.drop_last();
        assert forall|i: int| 0 <= i < front.len() implies plain_term(#[trigger] front[i]) by {
            assert(front[i] == terms[i]);
        }
        split_of_join(front);
        let j = join(front, ", "@);
        let tail = seq![' '] + last;
        assert(j + ", "@ + last =~= j.push(',') + tail);
        assert(!tail.contains(',')) by {
            if tail.contains(',') {
                let q = choose|q: int| 0 <= q < tail.len() && tail[q] == ',';
                assert(last[q - 1] == ',');
            }
        }
        split_appends(j.push(','), tail, ',');
        assert(j.push(',').drop_last() =~= j);
        let parts = split_on(j.push(','), ',');
        assert(parts == split_on(j, ',').push(seq![]));
        assert(parts.drop_last() =~= split_on(j, ','));
        assert(parts.last() + tail =~= tail);
        assert(spaced(front).push(tail) =~= spaced(terms));
    }
}

proof fn leading_space_is_trimmed(t: Seq<char>)
    ensures
        trim(seq![' '] + t) == trim(t),
{
    let s = seq![' '] + t;
    assert(s[0] == ' ');
    assert(s.drop_first() =~= t);
}

proof fn spaced_parts_read_back(terms: Seq<Seq<char>>, n: nat)
    requires
        n <= terms.len(),
        forall|i: int| 0 <= i < terms.len() ==> plain_term(#[trigger] terms[i]),
    ensures
        filled_parts(spaced(terms), n) == terms.take(n as int),
    decreases n,
{
    if n > 0 {
        spaced_parts_read_back(terms, (n - 1) as nat);
        assert(plain_term(terms[n - 1]));
        leading_space_is_trimmed(terms[n - 1]);
        assert(trim(spaced(terms)[n - 1]) == terms[n - 1]);
        assert(terms.take(n as int) =~= terms.take(n - 1).push(terms[n - 1]));
    } else {
        assert(terms.take(0) =~= seq![]);
    }
}

/// A list of plain terms comes back from the editor's line unchanged.
pub proof fn plain_terms_read_back(terms: Seq<Seq<char>>)
    requires
        forall|i: int| 0 <= i < terms.len() ==> plain_term(#[trigger] terms[i]),
    ensures
        normalized_terms(terms) == terms,
{
    if terms.len() == 0 {
        let empty = Seq::<char>::empty();
        assert(join(terms, ", "@) =~= empty);
        assert(split_on(empty, ',') =~= seq![empty]);
        assert(trim(empty) =~= empty);
        assert(filled_parts(seq![empty], 0) =~= terms);
        assert(filled_parts(seq![empty], 1) == filled_parts(seq![empty], 0));
    } else {
        split_of_join(terms);
        spaced_parts_read_back(terms, terms.len());
        assert(terms.take(terms.len() as int) =~= terms);
    }
}

/// Normalizing a list that the editor already produced changes nothing.
pub proof fn normalizing_is_idempotent(terms: Seq<Seq<char>>)
    ensures
        normalized_terms(normalized_terms(terms)) == normalized_terms(terms),
{
    csv_entries_are_plain(join(terms, ", "@));
    plain_terms_read_back(normalized_terms(terms));
}

/// A save leaves both stores alone where the list was never opened in the
/// editor, and where the editor's line was taken as it stood.
pub proof fn untouched_vocabulary_stays(
    use_file: bool,
    config_toml: Seq<Seq<char>>,
    merged: Seq<Seq<char>>,
    current: Seq<Seq<char>>,
)
    requires
        use_file,
        current == merged || current == normalized_terms(merged),
    ensures
        file_terms(use_file, merged, current) is None,
        config_terms(use_file, config_toml, merged, current) == config_toml,
{
    normalizing_is_idempotent(merged);
}

/// The list of the configuration is given up only in a save that writes the
/// whole current list to the file; in every other save each term of the
/// configuration's own half, or the edited list itself, is written back.
pub proof fn no_term_is_lost(
    use_file: bool,
    config_toml: Seq<Seq<char>>,
    merged: Seq<Seq<char>>,
    current: Seq<Seq<char>>,
)
    ensures
        file_terms(use_file, merged, current) is Some ==> use_file && file_terms(
            use_file,
            merged,
            current,
        ) == Some(current) && config_terms(use_file, config_toml, merged, current).len() == 0,
        file_terms(use_file, merged, current) is None ==> config_terms(
            use_file,
            config_toml,
            merged,
            current,
        ) == (if use_file {
            config_toml
        } else {
            current
        }),
{
}

/// Without a vocabulary file no save writes one.
pub proof fn no_file_is_created(merged: Seq<Seq<char>>, current: Seq<Seq<char>>)
    ensures
        file_terms(false, merged, current) is None,
{
}

proof fn distinct_terms_are_kept(terms: Seq<Seq<char>>, n: nat)
    requires
        n <= terms.len(),
        terms.no_duplicates(),
    ensures
        first_occurrences(terms, n) == terms.take(n as int),
    decreases n,
{
    if n > 0 {
        distinct_terms_are_kept(terms, (n - 1) as nat);
        let before = terms.take(n - 1);
        if before.contains(terms[n - 1]) {
            let q = choose|q: int| 0 <= q < before.len() && before[q] == terms[n - 1];
            assert(terms[q] == terms[n - 1]);
        }
        assert(terms.take(n as int) =~= before.push(terms[n - 1]));
    } else {
        assert(terms.take(0) =~= seq![]);
    }
}

/// After a save that moved the vocabulary, the daemon's merge of the two
/// stores gives exactly the list that the editor showed: a deleted term cannot
/// come back from the configuration. The terms are those that a line of the
/// file can hold.
pub proof fn deleted_term_stays_deleted(
    use_file: bool,
    config_toml: Seq<Seq<char>>,
    merged: Seq<Seq<char>>,
    current: Seq<Seq<char>>,
)
    requires
        migrates(use_file, merged, current),
        forall|i: int| 0 <= i < current.len() ==> survives(#[trigger] current[i]),
        current.len() > 0 ==> current[0][0] != '\u{feff}',
    ensures
        ({
            let on_disk = vocabulary_terms(rendered(current, current.len()));
            let own = config_terms(use_file, config_toml, merged, current);
            let loaded = first_occurrences(own + on_disk, (own.len() + on_disk.len()) as nat);
            &&& loaded == first_occurrences(current, current.len())
            &&& current.no_duplicates() ==> loaded == current
        }),
{
    vocabulary_round_trip(current);
    let own = config_terms(use_file, config_toml, merged, current);
    assert(own + current =~= current);
    if current.no_duplicates() {
        distinct_terms_are_kept(current, current.len());
        assert(current.take(current.len() as int) =~= current);
    }
}

/// An edit is never lost: where there is a vocabulary file, and the current
/// list is not the one that the session started from, as the editor would hand
/// the two back, the save writes the current list to the file.
pub proof fn edit_is_never_lost(
    config_toml: Seq<Seq<char>>,
    merged: Seq<Seq<char>>,
    current: Seq<Seq<char>>,
)
    requires
        csv_entries(join(merged, ", "@)) != csv_entries(join(current, ", "@)),
    ensures
        file_terms(true, merged, current) == Some(current),
        config_terms(true, config_toml, merged, current).len() == 0,
{
}

/// The same of two lists of plain terms: any difference at all, in a term, in
/// their number or in their order, is saved to the file, and none at all
/// leaves both stores alone.
pub proof fn plain_lists_are_saved_where_they_differ(
    config_toml: Seq<Seq<char>>,
    merged: Seq<Seq<char>>,
    current: Seq<Seq<char>>,
)
    requires
        forall|i: int| 0 <= i < merged.len() ==> plain_term(#[trigger] merged[i]),
        forall|i: int| 0 <= i < current.len() ==> plain_term(#[trigger] current[i]),
    ensures
        merged != current ==> file_terms(true, merged, current) == Some(current) && config_terms(
            true,
            config_toml,
            merged,
            current,
        ).len() == 0,
        merged == current ==> file_terms(true, merged, current) is None && config_terms(
            true,
            config_toml,
            merged,
            current,
        ) == config_toml,
{
    plain_terms_read_back(merged);
    plain_terms_read_back(current);
}

/// Without a vocabulary file the current list goes to the configuration, as it
/// is.
pub proof fn without_a_file_the_configuration_holds_the_list(
    config_toml: Seq<Seq<char>>,
    merged: Seq<Seq<char>>,
    current: Seq<Seq<char>>,
)
    ensures
        config_terms(false, config_toml, merged, current) == current,
        file_terms(false, merged, current) is None,
{
}

/// An entry of a list that was read stands in the line, without the white
/// space round it: it is one of the stretches between the commas.
pub proof fn csv_entries_come_from_the_line(input: Seq<char>, n: nat)
    requires
        n <= split_on(input, ',').len(),
    ensures
        forall|i: int|
            0 <= i < filled_parts(split_on(input, ','), n).len() ==> exists|k: int|
                0 <= k < n && (#[trigger] filled_parts(split_on(input, ','), n)[i]) == trim(
                    #[trigger] split_on(input, ',')[k],
                ),
        forall|k: int|
            0 <= k < n && trim(#[trigger] split_on(input, ',')[k]).len() > 0 ==> filled_parts(
                split_on(input, ','),
                n,
            ).contains(trim(split_on(input, ',')[k])),
    decreases n,
{
    if n > 0 {
        csv_entries_come_from_the_line(input, (n - 1) as nat);
        let parts = split_on(input, ',');
        let before = filled_parts(parts, (n - 1) as nat);
        let now = filled_parts(parts, n);
        assert forall|i: int| 0 <= i < now.len() implies exists|k: int|
            0 <= k < n && (#[trigger] now[i]) == trim(#[trigger] parts[k]) by {
            if i < before.len() {
                assert(now[i] == before[i]);
                let k = choose|k: int| 0 <= k < n - 1 && before[i] == trim(#[trigger] parts[k]);
                assert(now[i] == trim(parts[k]));
            } else {
                assert(now[i] == trim(parts[n - 1]));
            }
        }
        assert forall|k: int| 0 <= k < n && trim(#[trigger] parts[k]).len() > 0 implies now.contains(
            trim(parts[k]),
        ) by {
            if k < n - 1 {
                assert(before.contains(trim(parts[k])));
                let q = choose|q: int| 0 <= q < before.len() && before[q] == trim(parts[k]);
                assert(now[q] == trim(parts[k]));
            } else {
                assert(now[before.len() as int] == trim(parts[k]));
            }
        }
    }
}

proof fn filled_parts_follow_each_other(a: Seq<Seq<char>>, b: Seq<Seq<char>>, n: nat)
    requires
        n <= b.len(),
    ensures
        filled_parts(a + b, a.len() + n) == filled_parts(a, a.len()) + filled_parts(b, n),
    decreases n,
{
    if n == 0 {
        same_parts_same_entries(a, a + b, a.len());
        assert(filled_parts(a, a.len()) + filled_parts(b, 0) =~= filled_parts(a, a.len()));
    } else {
        filled_parts_follow_each_other(a, b, (n - 1) as nat);
        assert((a + b)[a.len() + n - 1] == b[n - 1]);
        assert(filled_parts(a + b, a.len() + n) =~= filled_parts(a, a.len()) + filled_parts(b, n));
    }
}

proof fn same_parts_same_entries(a: Seq<Seq<char>>, b: Seq<Seq<char>>, n: nat)
    requires
        n <= a.len() <= b.len(),
        forall|i: int| 0 <= i < a.len() ==> a[i] == b[i],
    ensures
        filled_parts(a, n) == filled_parts(b, n),
    decreases n,
{
    if n > 0 {
        same_parts_same_entries(a, b, (n - 1) as nat);
    }
}

/// A comma ends one entry and begins the next: a list is read part by part, in
/// order, and a part without a comma is one entry, or none where it is blank.
pub proof fn lists_are_read_part_by_part(a: Seq<char>, b: Seq<char>)
    ensures
        csv_entries(a + seq![','] + b) == csv_entries(a) + csv_entries(b),
        !a.contains(',') ==> csv_entries(a) == (if trim(a).len() == 0 {
            Seq::<Seq<char>>::empty()
        } else {
            seq![trim(a)]
        }),
{
    separators_part_the_text(a, b, ',');
    let x = split_on(a, ',');
    let y = split_on(b, ',');
    filled_parts_follow_each_other(x, y, y.len());
    if !a.contains(',') {
        assert(x == seq![a]);
        reveal_with_fuel(filled_parts, 2);
        assert(filled_parts(x, 0) =~= Seq::<Seq<char>>::empty());
        assert(csv_entries(a) =~= (if trim(a).len() == 0 {
            Seq::<Seq<char>>::empty()
        } else {
            seq![trim(a)]
        }));
    }
}

} // verus!
