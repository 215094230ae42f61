//! The clipboard: which backend serves it, and how its text is read through
//! `wl-paste` without mistaking other content for text.

use crate::config::types::WhisrsError;
use crate::text::{
    char_views, has_text, lowercase, same_text, split_char, split_on, split_on_nonempty, str_views,
    text_contains, text_list, texts, to_chars, to_text, trim, trimmed_chars,
};
use crate::text_laws::separators_part_the_text;
use vstd::prelude::*;

verus! {

/// Whether a MIME type stands for text: the standard variants, and the names
/// that X11 selections use.
pub open spec fn is_text_type(t: Seq<char>) -> bool {
    ||| t == "text/plain"@
    ||| t == "text/plain;charset=utf-8"@
    ||| t == "TEXT"@
    ||| t == "STRING"@
    ||| t == "UTF8_STRING"@
}

/// Whether any of the offered types is a text type.
pub open spec fn has_text_type(offered: Seq<Seq<char>>) -> bool {
    exists|i: int| 0 <= i < offered.len() && is_text_type(#[trigger] offered[i])
}

/// Whether any of `offered` is a text MIME type.
pub fn offers_text(offered: &[&str]) -> (r: bool)
    ensures
        r == has_text_type(str_views(offered@)),
{
    let mut i: usize = 0;
    while i < offered.len()
        invariant
            i <= offered@.len(),
            forall|j: int| 0 <= j < i ==> !is_text_type(#[trigger] str_views(offered@)[j]),
        decreases offered@.len() - i,
    {
        let t: &str = offered[i];
        assert(str_views(offered@)[i as int] == t@);
        if same_text(t, "text/plain") || same_text(t, "text/plain;charset=utf-8") || same_text(
            t,
            "TEXT",
        ) || same_text(t, "STRING") || same_text(t, "UTF8_STRING") {
            assert(is_text_type(str_views(offered@)[i as int]));
            return true;
        }
        i += 1;
    }
    false
}

/// Whether a message in lower case says that nothing is copied.
pub fn says_nothing_copied(lower: &str) -> (r: bool)
    ensures
        r == has_text(lower@, "nothing is copied"@),
{
    text_contains(lower, "nothing is copied")
}

/// Whether a message of `wl-paste` means that the clipboard has no selection
/// at all. The case of the message does not matter.
pub fn is_empty_clipboard_message(stderr: &str) -> (r: bool)
    ensures
        r == has_text(lowercase(stderr@), "nothing is copied"@),
{
    says_nothing_copied(stderr.to_lowercase().as_str())
}

/// The first `n` parts, each without the white space round it.
pub open spec fn trimmed_parts(parts: Seq<Seq<char>>, n: nat) -> Seq<Seq<char>> {
    Seq::new(n, |i: int| trim(parts[i]))
}

/// The types of a listing, one on each line. A line break at the end starts no
/// further line.
pub open spec fn listed_types(listing: Seq<char>) -> Seq<Seq<char>> {
    let parts = split_on(listing, '\n');
    trimmed_parts(
        parts,
        if parts.last().len() == 0 {
            (parts.len() - 1) as nat
        } else {
            parts.len()
        },
    )
}

fn types_of(listing: &str) -> (r: Vec<String>)
    ensures
        texts(r@) == listed_types(listing@),
{
    let parts = split_char(&to_chars(listing), '\n');
    let ghost views = char_views(parts@);
    proof {
        split_on_nonempty(listing@, '\n');
    }
    let mut n: usize = parts.len();
    assert(views.last() == parts@[n - 1]@);
    if parts[n - 1].len() == 0 {
        n = n - 1;
    }
    let mut r: Vec<String> = Vec::new();
    let mut i: usize = 0;
    while i < n
        invariant
            i <= n <= parts@.len(),
            views == char_views(parts@),
            texts(r@) == trimmed_parts(views, i as nat),
        decreases n - i,
    {
        let ghost before = texts(r@);
        let part = to_text(&trimmed_chars(&parts[i]));
        assert(part@ == trim(views[i as int]));
        let ghost added = part@;
        r.push(part);
        assert(texts(r@) =~= before.push(added));
        i += 1;
        assert(texts(r@) =~= trimmed_parts(views, i as nat));
    }
    r
}

/// What came of running a command.
#[derive(Debug, Clone)]
pub struct CommandResult {
    pub success: bool,
    pub stdout: String,
    pub stderr: String,
}

/// What is known so far of reading the clipboard.
#[derive(Debug, Clone)]
pub struct PasteProgress {
    /// What came of listing the types on offer.
    pub listing: Option<CommandResult>,
    /// What came of reading the text.
    pub reading: Option<CommandResult>,
}

/// Why the clipboard has no text to give.
#[derive(Debug)]
pub enum PasteError {
    /// The types could not be listed; what the command said.
    ListFailed(String),
    /// The clipboard holds something else than text; the types on offer.
    NotText(Vec<String>),
    /// The text could not be read; what the command said.
    ReadFailed(String),
}

/// What to do next to read the clipboard.
#[derive(Debug)]
pub enum PasteStep {
    /// Run `wl-paste` with these arguments, to list the types on offer.
    List(Vec<String>),
    /// Run `wl-paste` with these arguments, to read the text.
    Read(Vec<String>),
    /// The text of the clipboard.
    Done(String),
    Fail(PasteError),
}

/// A step with what it works on.
pub enum PasteAsk {
    List(Seq<Seq<char>>),
    Read(Seq<Seq<char>>),
    Done(Seq<char>),
    ListFailed(Seq<char>),
    NotText(Seq<Seq<char>>),
    ReadFailed(Seq<char>),
}

impl PasteStep {
    /// What a step asks for.
    pub open spec fn ask(self) -> PasteAsk {
        match self {
            PasteStep::List(v) => PasteAsk::List(texts(v@)),
            PasteStep::Read(v) => PasteAsk::Read(texts(v@)),
            PasteStep::Done(s) => PasteAsk::Done(s@),
            PasteStep::Fail(PasteError::ListFailed(s)) => PasteAsk::ListFailed(s@),
            PasteStep::Fail(PasteError::NotText(v)) => PasteAsk::NotText(texts(v@)),
            PasteStep::Fail(PasteError::ReadFailed(s)) => PasteAsk::ReadFailed(s@),
        }
    }
}

/// The arguments that list the types on offer.
pub open spec fn list_arguments(primary: bool) -> Seq<Seq<char>> {
    if primary {
        seq!["--list-types"@, "--primary"@]
    } else {
        seq!["--list-types"@]
    }
}

/// The arguments that read the text. The type is always named: what
/// `wl-paste` infers without it is not reliable.
pub open spec fn read_arguments(primary: bool) -> Seq<Seq<char>> {
    if primary {
        seq!["--no-newline"@, "--type"@, "text/plain"@, "--primary"@]
    } else {
        seq!["--no-newline"@, "--type"@, "text/plain"@]
    }
}

/// The next step to read the clipboard, after what is known so far.
/// `nothing_copied` tells whether a failed listing says that the clipboard is
/// empty.
pub open spec fn paste_ask(primary: bool, p: PasteProgress, nothing_copied: bool) -> PasteAsk {
    match p.listing {
        None => PasteAsk::List(list_arguments(primary)),
        Some(l) => if !l.success {
            if nothing_copied {
                PasteAsk::Done(""@)
            } else {
                PasteAsk::ListFailed(l.stderr@)
            }
        } else {
            let offered = listed_types(l.stdout@);
            if offered.len() == 0 {
                PasteAsk::Done(""@)
            } else if !has_text_type(offered) {
                PasteAsk::NotText(offered)
            } else {
                match p.reading {
                    None => PasteAsk::Read(read_arguments(primary)),
                    Some(r) => if r.success {
                        PasteAsk::Done(r.stdout@)
                    } else {
                        PasteAsk::ReadFailed(r.stderr@)
                    },
                }
            }
        },
    }
}

/// The next step to read the clipboard, or the primary selection, given
/// whether a failed listing says that the clipboard is empty.
pub fn paste_step(primary: bool, p: &PasteProgress, nothing_copied: bool) -> (r: PasteStep)
    ensures
        r.ask() == paste_ask(primary, *p, nothing_copied),
{
    let l = match &p.listing {
        None => {
            let v = if primary {
                text_list(&["--list-types", "--primary"])
            } else {
                text_list(&["--list-types"])
            };
            assert(texts(v@) =~= list_arguments(primary));
            return PasteStep::List(v);
        },
        Some(l) => l,
    };
    if !l.success {
        return if nothing_copied {
            PasteStep::Done("".to_owned())
        } else {
            PasteStep::Fail(PasteError::ListFailed(l.stderr.clone()))
        };
    }
    let offered = types_of(l.stdout.as_str());
    assert(offered@.len() == texts(offered@).len());
    if offered.len() == 0 {
        return PasteStep::Done("".to_owned());
    }
    if !any_text_type(&offered) {
        return PasteStep::Fail(PasteError::NotText(offered));
    }
    match &p.reading {
        None => {
            let v = if primary {
                text_list(&["--no-newline", "--type", "text/plain", "--primary"])
            } else {
                text_list(&["--no-newline", "--type", "text/plain"])
            };
            assert(texts(v@) =~= read_arguments(primary));
            PasteStep::Read(v)
        },
        Some(r) => if r.success {
            PasteStep::Done(r.stdout.clone())
        } else {
            PasteStep::Fail(PasteError::ReadFailed(r.stderr.clone()))
        },
    }
}

fn any_text_type(offered: &[String]) -> (r: bool)
    ensures
        r == has_text_type(texts(offered@)),
{
    let mut slices: Vec<&str> = Vec::new();
    let mut i: usize = 0;
    while i < offered.len()
        invariant
            i <= offered@.len(),
            str_views(slices@) == texts(offered@).take(i as int),
        decreases offered@.len() - i,
    {
        let ghost before = str_views(slices@);
        slices.push(offered[i].as_str());
        assert(str_views(slices@) =~= before.push(offered@[i as int]@));
        i += 1;
        assert(str_views(slices@) =~= texts(offered@).take(i as int));
    }
    assert(texts(offered@).take(offered@.len() as int) =~= texts(offered@));
    offers_text(&slices)
}

/// Read the clipboard, or the primary selection, through `wl-paste`: the next
/// step, after what is known so far.
pub fn run_wl_paste(primary: bool, p: &PasteProgress) -> (r: PasteStep)
    ensures
        r.ask() == paste_ask(
            primary,
            *p,
            match p.listing {
                Some(l) => has_text(lowercase(l.stderr@), "nothing is copied"@),
                None => false,
            },
        ),
{
    let nothing_copied: bool = match &p.listing {
        Some(l) => is_empty_clipboard_message(l.stderr.as_str()),
        None => false,
    };
    paste_step(primary, p, nothing_copied)
}

/// Content that is no text is never taken for an empty clipboard, and is never
/// read: a caller that restores what it saved cannot overwrite it by mistake.
pub proof fn other_content_is_an_error(primary: bool, p: PasteProgress, nothing_copied: bool)
    requires
        p.listing matches Some(l) && l.success && listed_types(l.stdout@).len() > 0
            && !has_text_type(listed_types(l.stdout@)),
    ensures
        paste_ask(primary, p, nothing_copied) is NotText,
{
}

/// The text is read only once a text type was found on offer.
pub proof fn text_is_read_only_when_offered(primary: bool, p: PasteProgress, nothing_copied: bool)
    ensures
        paste_ask(primary, p, nothing_copied) is Read ==> (p.listing matches Some(l) && l.success
            && has_text_type(listed_types(l.stdout@))),
{
}

/// Clipboard backend that runs `wl-paste` and `wl-copy`.
#[derive(Debug, Clone, Copy, PartialEq, Eq, Structural)]
pub struct WaylandClipboard;

impl WaylandClipboard {
    /// The next step to read the clipboard.
    pub fn get_text(&self, p: &PasteProgress) -> (r: PasteStep)
        ensures
            r.ask() == paste_ask(
                false,
                *p,
                match p.listing {
                    Some(l) => has_text(lowercase(l.stderr@), "nothing is copied"@),
                    None => false,
                },
            ),
    {
        run_wl_paste(false, p)
    }

    /// The next step to read the primary selection.
    pub fn get_primary_selection(&self, p: &PasteProgress) -> (r: PasteStep)
        ensures
            r.ask() == paste_ask(
                true,
                *p,
                match p.listing {
                    Some(l) => has_text(lowercase(l.stderr@), "nothing is copied"@),
                    None => false,
                },
            ),
    {
        run_wl_paste(true, p)
    }
}

/// Clipboard backend for X11.
#[derive(Debug, Clone, Copy, PartialEq, Eq, Structural)]
pub struct X11Clipboard;

/// Clipboard backend that never succeeds or fails: all operations do nothing.
#[derive(Debug, Clone, Copy, PartialEq, Eq, Structural)]
pub struct NoopClipboard;

impl NoopClipboard {
    /// There is never any text.
    pub fn get_text(&self) -> (r: Result<String, WhisrsError>)
        ensures
            r matches Ok(s) && s@ == ""@,
    {
        Ok("".to_owned())
    }

    /// The text goes nowhere.
    pub fn set_text(&self, text: &str) -> (r: Result<(), WhisrsError>)
        ensures
            r == Ok::<(), WhisrsError>(()),
    {
        Ok(())
    }

    /// There is never a selection.
    pub fn get_primary_selection(&self) -> (r: Result<String, WhisrsError>)
        ensures
            r matches Ok(s) && s@ == ""@,
    {
        Ok("".to_owned())
    }
}

/// The clipboard backends.
#[derive(Debug, Clone, Copy, PartialEq, Eq, Structural)]
pub enum Clipboard {
    Wayland(WaylandClipboard),
    X11(X11Clipboard),
}

/// Return the clipboard backend for the current display server: Wayland where
/// its variable is set, and X11 otherwise.
pub fn default_clipboard(wayland_display: bool) -> (r: Clipboard)
    ensures
        r == (if wayland_display {
            Clipboard::Wayland(WaylandClipboard)
        } else {
            Clipboard::X11(X11Clipboard)
        }),
{
    if wayland_display {
        Clipboard::Wayland(WaylandClipboard)
    } else {
        Clipboard::X11(X11Clipboard)
    }
}

/// Of the types on offer just five stand for text, in just this spelling.
pub proof fn five_types_stand_for_text(t: Seq<char>)
    ensures
        is_text_type(t) <==> seq![
            "UTF8_STRING"@,
            "STRING"@,
            "TEXT"@,
            "text/plain;charset=utf-8"@,
            "text/plain"@,
        ].contains(t),
{
    let known = seq![
        "UTF8_STRING"@,
        "STRING"@,
        "TEXT"@,
        "text/plain;charset=utf-8"@,
        "text/plain"@,
    ];
    assert(known[0] == "UTF8_STRING"@ && known[1] == "STRING"@ && known[2] == "TEXT"@);
    assert(known[3] == "text/plain;charset=utf-8"@ && known[4] == "text/plain"@);
}

/// A listing offers what stands on its lines, one type on each, without the
/// white space round it; an empty one offers nothing.
pub proof fn every_line_offers_a_type(line: Seq<char>, rest: Seq<char>)
    requires
        !line.contains('\n'),
    ensures
        listed_types(line + seq!['\n'] + rest) == seq![trim(line)] + listed_types(rest),
        line.len() > 0 ==> listed_types(line) == seq![trim(line)],
        listed_types(Seq::<char>::empty()) == Seq::<Seq<char>>::empty(),
{
    separators_part_the_text(line, rest, '\n');
    split_on_nonempty(rest, '\n');
    let whole = split_on(line + seq!['\n'] + rest, '\n');
    let parts = split_on(rest, '\n');
    assert(whole == seq![line] + parts);
    assert(whole.last() == parts.last());
    assert(listed_types(line + seq!['\n'] + rest) =~= seq![trim(line)] + listed_types(rest));
    let one = split_on(line, '\n');
    assert(one == seq![line]);
    assert(one.last() == line);
    if line.len() > 0 {
        assert(listed_types(line) =~= seq![trim(line)]);
    }
    let none = split_on(Seq::<char>::empty(), '\n');
    assert(none.last().len() == 0);
    assert(listed_types(Seq::<char>::empty()) =~= Seq::<Seq<char>>::empty());
}

/// Text on the clipboard is read as it is: once a text type is on offer it is
/// asked for by name, from the selection that is meant, and what comes is
/// handed out unchanged.
pub proof fn offered_text_is_handed_out(
    primary: bool,
    p: PasteProgress,
    nothing_copied: bool,
    i: int,
)
    requires
        p.listing matches Some(l) && l.success && 0 <= i < listed_types(l.stdout@).len()
            && is_text_type(listed_types(l.stdout@)[i]),
    ensures
        match p.reading {
            None => paste_ask(primary, p, nothing_copied) == PasteAsk::Read(
                seq!["--no-newline"@, "--type"@, "text/plain"@] + (if primary {
                    seq!["--primary"@]
                } else {
                    seq![]
                }),
            ),
            Some(r) => r.success ==> paste_ask(primary, p, nothing_copied) == PasteAsk::Done(
                r.stdout@,
            ),
        },
{
    let l = p.listing->0;
    assert(has_text_type(listed_types(l.stdout@)));
    assert(read_arguments(primary) =~= seq!["--no-newline"@, "--type"@, "text/plain"@] + (
    if primary {
        seq!["--primary"@]
    } else {
        seq![]
    }));
}

/// A clipboard that is empty gives the empty text, and no failure is ever
/// taken for one: what a command that failed said is passed on.
pub proof fn failures_are_not_empty_text(primary: bool, p: PasteProgress, nothing_copied: bool)
    ensures
        p.listing is None ==> paste_ask(primary, p, nothing_copied) == PasteAsk::List(
            seq!["--list-types"@] + (if primary {
                seq!["--primary"@]
            } else {
                seq![]
            }),
        ),
        p.listing matches Some(l) && !l.success && !nothing_copied ==> paste_ask(
            primary,
            p,
            nothing_copied,
        ) == PasteAsk::ListFailed(p.listing->0.stderr@),
        p.listing matches Some(l) && !l.success && nothing_copied ==> paste_ask(
            primary,
            p,
            nothing_copied,
        ) == PasteAsk::Done(""@),
        p.listing matches Some(l) && l.success && l.stdout@.len() == 0 ==> paste_ask(
            primary,
            p,
            nothing_copied,
        ) == PasteAsk::Done(""@),
        (p.listing matches Some(l) && l.success && has_text_type(listed_types(l.stdout@))) && (
        p.reading matches Some(r) && !r.success) ==> paste_ask(primary, p, nothing_copied)
            == PasteAsk::ReadFailed(p.reading->0.stderr@),
{
    assert(list_arguments(primary) =~= seq!["--list-types"@] + (if primary {
        seq!["--primary"@]
    } else {
        seq![]
    }));
    if let Some(l) = p.listing {
        if l.stdout@.len() == 0 {
            assert(l.stdout@ =~= Seq::<char>::empty());
            every_line_offers_a_type(l.stdout@, l.stdout@);
        }
        if has_text_type(listed_types(l.stdout@)) {
            assert(listed_types(l.stdout@).len() > 0);
        }
    }
}

} // verus!
