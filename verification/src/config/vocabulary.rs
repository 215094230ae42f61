//! The vocabulary file: one term per line, beside the configuration.

use crate::config::types::{join_path, path_join};
use crate::text::{
    char_views, contains_text, is_white, opt_text, range_of, skip_white, split_appends, split_char,
    split_on, texts, to_chars, to_text, trim, trim_end, trim_start, trim_start_suffix,
    trimmed_chars,
};
use vstd::prelude::*;

verus! {

/// Where the vocabulary lives, beside the configuration.
pub open spec fn vocabulary_file(config_dir: Option<Seq<char>>) -> Seq<char> {
    let dir = match config_dir {
        Some(d) => d,
        None => "~/.config"@,
    };
    path_join(path_join(dir, "whisrs"@), "vocabulary.txt"@)
}

/// The path to the vocabulary file, below the user's configuration directory.
pub fn vocabulary_path(config_dir: &Option<String>) -> (r: String)
    ensures
        r@ == vocabulary_file(opt_text(*config_dir)),
{
    let dir: &str = match config_dir {
        Some(d) => d.as_str(),
        None => "~/.config",
    };
    let sub = join_path(dir, "whisrs");
    join_path(sub.as_str(), "vocabulary.txt")
}

/// A text without the byte order mark at its start.
pub open spec fn strip_bom(s: Seq<char>) -> Seq<char> {
    if s.len() > 0 && s[0] == '\u{feff}' {
        s.drop_first()
    } else {
        s
    }
}

/// The term on a line, if there is one: blank lines and lines that start with
/// a number sign have none, and one leading backslash only escapes.
pub open spec fn line_term(line: Seq<char>) -> Option<Seq<char>> {
    let t = trim(line);
    if t.len() == 0 || t[0] == '#' {
        None
    } else {
        let term = if t[0] == '\\' {
            t.drop_first()
        } else {
            t
        };
        if term.len() == 0 {
            None
        } else {
            Some(term)
        }
    }
}

/// The terms on the first `n` lines.
pub open spec fn line_terms(lines: Seq<Seq<char>>, n: nat) -> Seq<Seq<char>>
    decreases n,
{
    if n == 0 {
        seq![]
    } else {
        let before = line_terms(lines, (n - 1) as nat);
        match line_term(lines[n - 1]) {
            Some(term) => before.push(term),
            None => before,
        }
    }
}

/// The terms of a vocabulary file.
pub open spec fn vocabulary_terms(contents: Seq<char>) -> Seq<Seq<char>> {
    let lines = split_on(strip_bom(contents), '\n');
    line_terms(lines, lines.len())
}

fn term_of_line(line: &[char]) -> (r: Option<String>)
    ensures
        opt_text(r) == line_term(line@),
{
    let t = trimmed_chars(line);
    if t.len() == 0 || t[0] == '#' {
        return None;
    }
    let start: usize = if t[0] == '\\' {
        1
    } else {
        0
    };
    if start == t.len() {
        return None;
    }
    assert(t@.subrange(0, t@.len() as int) =~= t@);
    assert(t@.subrange(1, t@.len() as int) =~= t@.drop_first());
    Some(to_text(&range_of(&t, start, t.len())))
}

/// One term per line; blank lines and `#` comment lines are skipped. A leading
/// byte order mark is not part of the first line. A single leading `\` is an
/// escape: with it a term can begin with `#` or `\`.
pub fn parse_vocabulary(contents: &str) -> (r: Vec<String>)
    ensures
        texts(r@) == vocabulary_terms(contents@),
{
    let v = to_chars(contents);
    let start: usize = if v.len() > 0 && v[0] == '\u{feff}' {
        1
    } else {
        0
    };
    let body = range_of(&v, start, v.len());
    assert(body@ =~= strip_bom(contents@));
    let lines = split_char(&body, '\n');
    let ghost parts = char_views(lines@);
    let mut r: Vec<String> = Vec::new();
    let mut i: usize = 0;
    assert(texts(r@) =~= line_terms(parts, 0));
    while i < lines.len()
        invariant
            i <= lines@.len(),
            parts == char_views(lines@),
            texts(r@) == line_terms(parts, i as nat),
        decreases lines@.len() - i,
    {
        let ghost before = texts(r@);
        assert(parts[i as int] == lines@[i as int]@);
        match term_of_line(&lines[i]) {
            Some(term) => {
                r.push(term);
                assert(texts(r@) =~= before.push(term@));
            },
            None => {},
        }
        i += 1;
    }
    r
}

/// The first `n` of the given terms, without those that occurred before.
pub open spec fn first_occurrences(terms: Seq<Seq<char>>, n: nat) -> Seq<Seq<char>>
    decreases n,
{
    if n == 0 {
        seq![]
    } else {
        let before = first_occurrences(terms, (n - 1) as nat);
        if before.contains(terms[n - 1]) {
            before
        } else {
            before.push(terms[n - 1])
        }
    }
}

/// All terms of two lists, in order, each once. The case of a term counts.
pub fn merge_vocabulary(config_terms: Vec<String>, file_terms: Vec<String>) -> (r: Vec<String>)
    ensures
        texts(r@) == first_occurrences(
            texts(config_terms@) + texts(file_terms@),
            (config_terms@.len() + file_terms@.len()) as nat,
        ),
{
    let ghost all = texts(config_terms@) + texts(file_terms@);
    let mut r: Vec<String> = Vec::new();
    let mut i: usize = 0;
    assert(texts(r@) =~= first_occurrences(all, 0));
    while i < config_terms.len()
        invariant
            i <= config_terms@.len(),
            all == texts(config_terms@) + texts(file_terms@),
            texts(r@) == first_occurrences(all, i as nat),
        decreases config_terms@.len() - i,
    {
        let ghost before = texts(r@);
        assert(all[i as int] == config_terms@[i as int]@);
        if !contains_text(&r, config_terms[i].as_str()) {
            r.push(config_terms[i].clone());
            assert(texts(r@) =~= before.push(all[i as int]));
        }
        i += 1;
    }
    let mut j: usize = 0;
    while j < file_terms.len()
        invariant
            j <= file_terms@.len(),
            all == texts(config_terms@) + texts(file_terms@),
            texts(r@) == first_occurrences(all, (config_terms@.len() + j) as nat),
        decreases file_terms@.len() - j,
    {
        let ghost before = texts(r@);
        assert(all[config_terms@.len() + j] == file_terms@[j as int]@);
        if !contains_text(&r, file_terms[j].as_str()) {
            r.push(file_terms[j].clone());
            assert(texts(r@) =~= before.push(all[config_terms@.len() + j]));
        }
        j += 1;
    }
    r
}

/// Whether a term is written with a backslash before it: its first character
/// that is not white space means something to the reader.
pub open spec fn needs_escape(term: Seq<char>) -> bool {
    let t = trim_start(term);
    t.len() > 0 && (t[0] == '#' || t[0] == '\\')
}

/// A term as it stands in the file.
pub open spec fn written(term: Seq<char>) -> Seq<char> {
    if needs_escape(term) {
        seq!['\\'] + term
    } else {
        term
    }
}

/// The file that holds the first `n` terms.
pub open spec fn rendered(terms: Seq<Seq<char>>, n: nat) -> Seq<char>
    decreases n,
{
    if n == 0 {
        seq![]
    } else {
        (rendered(terms, (n - 1) as nat) + written(terms[n - 1])).push('\n')
    }
}

/// The contents of the vocabulary file for `terms`: one term per line, with a
/// single extra leading `\` where the term begins with `#` or `\`.
pub fn vocabulary_file_contents(terms: &[String]) -> (r: String)
    ensures
        r@ == rendered(texts(terms@), terms@.len()),
{
    let mut r = String::new();
    let mut i: usize = 0;
    while i < terms.len()
        invariant
            i <= terms@.len(),
            r@ == rendered(texts(terms@), i as nat),
        decreases terms@.len() - i,
    {
        let ghost before = r@;
        let v = to_chars(terms[i].as_str());
        let k: usize = skip_white(&v, 0);
        assert(v@.skip(0) =~= v@);
        assert(k < v@.len() ==> v@.skip(k as int)[0] == v@[k as int]);
        if k < v.len() && (v[k] == '#' || v[k] == '\\') {
            r.push('\\');
        }
        r.push_str(terms[i].as_str());
        assert(texts(terms@)[i as int] == terms@[i as int]@);
        assert(r@ =~= before + written(texts(terms@)[i as int]));
        r.push('\n');
        i += 1;
    }
    r
}

/// Whether a term comes back from the file as it is: it fills one line, does
/// not end in white space, and starts with none unless it is escaped.
pub open spec fn survives(term: Seq<char>) -> bool {
    &&& term.len() > 0
    &&& !term.contains('\n')
    &&& !is_white(term.last())
    &&& !is_white(term[0]) || needs_escape(term)
}

proof fn rendered_lines(terms: Seq<Seq<char>>, n: nat)
    requires
        n <= terms.len(),
        forall|i: int| 0 <= i < terms.len() ==> survives(#[trigger] terms[i]),
    ensures
        split_on(rendered(terms, n), '\n') == Seq::new(n, |i: int| written(terms[i])).push(seq![]),
    decreases n,
{
    if n == 0 {
        assert(split_on(rendered(terms, n), '\n') =~= Seq::new(
            n,
            |i: int| written(terms[i]),
        ).push(seq![]));
    } else {
        let m = (n - 1) as nat;
        rendered_lines(terms, m);
        let r = rendered(terms, m);
        let w = written(terms[m as int]);
        assert(survives(terms[m as int]));
        assert(!w.contains('\n')) by {
            if w.contains('\n') {
                let i = choose|i: int| 0 <= i < w.len() && w[i] == '\n';
                if needs_escape(terms[m as int]) {
                    assert(terms[m as int][i - 1] == '\n');
                }
            }
        }
        split_appends(r, w, '\n');
        let before = Seq::new(m, |i: int| written(terms[i]));
        assert(before.push(seq![]).drop_last() =~= before);
        assert(Seq::<char>::empty() + w =~= w);
        assert((r + w).push('\n').drop_last() =~= r + w);
        assert(before.push(w) =~= Seq::new(n, |i: int| written(terms[i])));
    }
}

proof fn written_line_reads_back(term: Seq<char>)
    requires
        survives(term),
    ensures
        line_term(written(term)) == Some(term),
{
    let w = written(term);
    let a = trim_start_suffix(term);
    if needs_escape(term) {
        assert(w.last() == term.last());
        assert(w[0] == '\\');
        assert(w.drop_first() =~= term);
    } else {
        if a > 0 {
            assert(is_white(term[0]));
        }
        assert(term.skip(0) =~= term);
    }
    assert(trim_start(w) == w);
    assert(trim_end(w) == w);
}

proof fn lines_read_back(terms: Seq<Seq<char>>, lines: Seq<Seq<char>>, n: nat)
    requires
        n <= terms.len(),
        lines.len() >= terms.len(),
        forall|i: int| 0 <= i < terms.len() ==> survives(#[trigger] terms[i]),
        forall|i: int| 0 <= i < terms.len() ==> #[trigger] lines[i] == written(terms[i]),
    ensures
        line_terms(lines, n) == terms.take(n as int),
    decreases n,
{
    if n > 0 {
        lines_read_back(terms, lines, (n - 1) as nat);
        assert(survives(terms[n - 1]));
        written_line_reads_back(terms[n - 1]);
        assert(lines[n - 1] == written(terms[n - 1]));
        assert(terms.take(n as int) =~= terms.take(n - 1).push(terms[n - 1]));
    } else {
        assert(terms.take(0) =~= seq![]);
    }
}

proof fn rendered_starts(terms: Seq<Seq<char>>, n: nat)
    requires
        0 < n <= terms.len(),
        terms[0].len() > 0,
    ensures
        rendered(terms, n).len() > 0,
        rendered(terms, n)[0] == written(terms[0])[0],
    decreases n,
{
    if n > 1 {
        rendered_starts(terms, (n - 1) as nat);
    } else {
        assert(rendered(terms, 0) =~= seq![]);
    }
}

/// Whatever the writer puts on disk, the reader takes back as the same list of
/// terms. Excepted are only terms that cannot stand on a line of their own:
/// empty and blank ones, those that hold a line break, begin (unescaped) or
/// end with white space, or, in the first place, begin with a byte order mark.
pub proof fn vocabulary_round_trip(terms: Seq<Seq<char>>)
    requires
        forall|i: int| 0 <= i < terms.len() ==> survives(#[trigger] terms[i]),
        terms.len() > 0 ==> terms[0][0] != '\u{feff}',
    ensures
        vocabulary_terms(rendered(terms, terms.len())) == terms,
{
    let r = rendered(terms, terms.len());
    if terms.len() > 0 {
        assert(survives(terms[0]));
        rendered_starts(terms, terms.len());
        assert(strip_bom(r) == r);
    }
    rendered_lines(terms, terms.len());
    let lines = split_on(r, '\n');
    lines_read_back(terms, lines, terms.len());
    let n = terms.len();
    assert(lines[n as int] =~= seq![]);
    assert(trim(seq![]) =~= Seq::<char>::empty());
    assert(line_terms(lines, n + 1) == line_terms(lines, n));
    assert(terms.take(n as int) =~= terms);
}

/// A term that is empty or blank is dropped: it is no term.
pub proof fn blank_line_is_no_term(line: Seq<char>)
    requires
        trim(line).len() == 0,
    ensures
        line_term(line) is None,
{
}

/// Merging vocabularies repeats no term and loses none, and terms keep the
/// order of their first occurrence.
pub proof fn merged_terms_are_distinct(terms: Seq<Seq<char>>, n: nat)
    requires
        n <= terms.len(),
    ensures
        first_occurrences(terms, n).no_duplicates(),
        forall|i: int| 0 <= i < n ==> first_occurrences(terms, n).contains(#[trigger] terms[i]),
        forall|x: Seq<char>|
            #[trigger] first_occurrences(terms, n).contains(x) ==> terms.take(n as int).contains(x),
    decreases n,
{
    if n > 0 {
        merged_terms_are_distinct(terms, (n - 1) as nat);
        let before = first_occurrences(terms, (n - 1) as nat);
        let now = first_occurrences(terms, n);
        assert forall|i: int| 0 <= i < n implies now.contains(#[trigger] terms[i]) by {
            if before.contains(terms[i]) {
                let q = choose|q: int| 0 <= q < before.len() && before[q] == terms[i];
                assert(now[q] == terms[i]);
            } else {
                assert(now[before.len() as int] == terms[i]);
            }
        }
        assert forall|x: Seq<char>| #[trigger] now.contains(x) implies terms.take(
            n as int,
        ).contains(x) by {
            if before.contains(x) {
                let head = terms.take(n - 1);
                let q = choose|q: int| 0 <= q < head.len() && head[q] == x;
                assert(terms.take(n as int)[q] == x);
            } else {
                let q = choose|q: int| 0 <= q < now.len() && now[q] == x;
                if q < before.len() {
                    assert(before[q] == x);
                }
                assert(terms.take(n as int)[n - 1] == x);
            }
        }
    }
}

/// Merged terms stand in the order of their first occurrence: each is the
/// first of its kind in the lists, and a later one comes from further on.
pub proof fn merged_terms_keep_their_order(terms: Seq<Seq<char>>, n: nat, i: int, j: int)
    requires
        n <= terms.len(),
        0 <= i < j < first_occurrences(terms, n).len(),
    ensures
        exists|a: int, b: int|
            0 <= a < b < n && #[trigger] terms[a] == first_occurrences(terms, n)[i]
                && #[trigger] terms[b] == first_occurrences(terms, n)[j] && !terms.take(
                a,
            ).contains(terms[a]) && !terms.take(b).contains(terms[b]),
    decreases n,
{
    let before = first_occurrences(terms, (n - 1) as nat);
    let now = first_occurrences(terms, n);
    merged_terms_are_distinct(terms, (n - 1) as nat);
    if j < before.len() {
        merged_terms_keep_their_order(terms, (n - 1) as nat, i, j);
        let (a, b) = choose|a: int, b: int|
            0 <= a < b < n - 1 && #[trigger] terms[a] == before[i] && #[trigger] terms[b]
                == before[j] && !terms.take(a).contains(terms[a]) && !terms.take(b).contains(
                terms[b],
            );
        assert(terms[a] == now[i] && terms[b] == now[j]);
    } else {
        let b = n - 1;
        let head = terms.take(b);
        assert(!head.contains(terms[b])) by {
            if head.contains(terms[b]) {
                let q = choose|q: int| 0 <= q < head.len() && head[q] == terms[b];
                assert(before.contains(terms[q]));
            }
        }
        assert(before.contains(before[i]));
        let a = first_place(terms, b as nat, before[i]);
        assert(terms[a] == now[i] && terms[b] == now[j]);
    }
}

proof fn first_place(terms: Seq<Seq<char>>, n: nat, x: Seq<char>) -> (a: int)
    requires
        n <= terms.len(),
        terms.take(n as int).contains(x),
    ensures
        0 <= a < n,
        terms[a] == x,
        !terms.take(a).contains(x),
    decreases n,
{
    let head = terms.take(n - 1);
    if head.contains(x) {
        first_place(terms, (n - 1) as nat, x)
    } else {
        let q = choose|q: int| 0 <= q < n && terms.take(n as int)[q] == x;
        if q < n - 1 {
            assert(head[q] == x);
        }
        n - 1
    }
}

/// A line is read for what it says: a comment and a blank line for nothing, a
/// backslash for the rest of the line, and any other line for itself, always
/// without the white space round it.
pub proof fn lines_are_read_for_what_they_say(line: Seq<char>)
    ensures
        trim(line).len() == 0 ==> line_term(line) is None,
        trim(line).len() > 0 && trim(line)[0] == '#' ==> line_term(line) is None,
        trim(line).len() > 1 && trim(line)[0] == '\\' ==> line_term(line) == Some(
            trim(line).skip(1),
        ),
        trim(line).len() == 1 && trim(line)[0] == '\\' ==> line_term(line) is None,
        trim(line).len() > 0 && trim(line)[0] != '#' && trim(line)[0] != '\\' ==> line_term(line)
            == Some(trim(line)),
{
    if trim(line).len() > 1 {
        assert(trim(line).skip(1) =~= trim(line).drop_first());
    }
}

/// A file is read line by line: what one file says and then another, each of
/// whole lines, the two say together.
pub proof fn files_are_read_line_by_line(a: Seq<Seq<char>>, b: Seq<Seq<char>>, n: nat)
    requires
        n <= b.len(),
    ensures
        line_terms(a + b, a.len() + n) == line_terms(a, a.len()) + line_terms(b, n),
    decreases n,
{
    if n > 0 {
        files_are_read_line_by_line(a, b, (n - 1) as nat);
        assert((a + b)[a.len() + n - 1] == b[n - 1]);
        assert(line_terms(a + b, a.len() + n) =~= line_terms(a, a.len()) + line_terms(b, n));
    } else {
        same_lines_same_terms(a, a + b, a.len());
        assert(line_terms(a + b, a.len()) =~= line_terms(a, a.len()) + line_terms(b, 0));
    }
}

proof fn same_lines_same_terms(a: Seq<Seq<char>>, b: Seq<Seq<char>>, n: nat)
    requires
        n <= a.len() <= b.len(),
        forall|i: int| 0 <= i < n ==> a[i] == b[i],
    ensures
        line_terms(a, n) == line_terms(b, n),
    decreases n,
{
    if n > 0 {
        same_lines_same_terms(a, b, (n - 1) as nat);
    }
}

/// A mark for the order of bytes at the start of a file does not count.
pub proof fn byte_order_mark_does_not_count(s: Seq<char>)
    requires
        s.len() > 0 ==> s[0] != '\u{feff}',
    ensures
        vocabulary_terms(seq!['\u{feff}'] + s) == vocabulary_terms(s),
{
    assert((seq!['\u{feff}'] + s).drop_first() =~= s);
}

/// A term is written as it is, but for one that would be read as a comment or
/// as escaped: that one gets a backslash before it.
pub proof fn terms_are_written_as_they_are(term: Seq<char>)
    requires
        term.len() > 0,
        !is_white(term[0]),
    ensures
        term[0] != '#' && term[0] != '\\' ==> written(term) == term,
        term[0] == '#' || term[0] == '\\' ==> written(term) == seq!['\\'] + term,
{
}

/// Each term stands on a line of its own.
pub proof fn terms_stand_on_their_own_lines(terms: Seq<Seq<char>>, n: nat)
    requires
        0 < n <= terms.len(),
    ensures
        rendered(terms, n) == rendered(terms, (n - 1) as nat) + (written(terms[n - 1])
            + seq!['\n']),
        rendered(terms, 0) == Seq::<char>::empty(),
{
    assert(rendered(terms, n) =~= rendered(terms, (n - 1) as nat) + (written(terms[n - 1])
        + seq!['\n']));
}

/// The vocabulary lies beside the configuration.
pub proof fn vocabulary_has_its_place(dir: Seq<char>)
    requires
        dir.len() > 0,
        dir.last() != '/',
    ensures
        vocabulary_file(Some(dir)) == dir + "/whisrs/vocabulary.txt"@,
        vocabulary_file(None) == "~/.config/whisrs/vocabulary.txt"@,
{
    reveal_strlit("/");
    reveal_strlit("whisrs");
    reveal_strlit("vocabulary.txt");
    reveal_strlit("/whisrs/vocabulary.txt");
    reveal_strlit("~/.config");
    reveal_strlit("~/.config/whisrs/vocabulary.txt");
    let sub = path_join(dir, "whisrs"@);
    assert(sub.last() == 's');
    assert(vocabulary_file(Some(dir)) =~= dir + "/whisrs/vocabulary.txt"@);
    let home = path_join("~/.config"@, "whisrs"@);
    assert(home.last() == 's');
    assert(vocabulary_file(None) =~= "~/.config/whisrs/vocabulary.txt"@);
}

} // verus!
