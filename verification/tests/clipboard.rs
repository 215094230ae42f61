use whisrs::clipboard::{
    default_clipboard, is_empty_clipboard_message, offers_text, paste_step, run_wl_paste,
    says_nothing_copied, Clipboard, CommandResult, NoopClipboard, PasteError, PasteProgress,
    PasteStep, WaylandClipboard, X11Clipboard,
};

#[test]
fn recognizes_truly_empty_clipboard() {
    assert!(is_empty_clipboard_message("Nothing is copied\n"));
    // Case-insensitive: wording/casing has varied across wl-clipboard
    // versions.
    assert!(is_empty_clipboard_message("nothing is copied\n"));
}

#[test]
fn does_not_treat_non_text_content_as_empty() {
    assert!(!is_empty_clipboard_message(
        "Clipboard content is not available as inferred output type \"text/plain\"\n\
         Use \"wl-paste --list-types\" to view available types."
    ));
    assert!(!is_empty_clipboard_message(
        "Clipboard content is not available as requested type \"text/plain\"\n\
         Use \"wl-paste --list-types\" to view available types."
    ));
}

#[test]
fn does_not_match_stale_no_suitable_type_phrasing() {
    assert!(!is_empty_clipboard_message(
        "no suitable type of content copied"
    ));
}

#[test]
fn offers_text_true_for_plain_text_types() {
    assert!(offers_text(&["text/plain"]));
    assert!(offers_text(&["text/plain;charset=utf-8"]));
    assert!(offers_text(&["TEXT"]));
    assert!(offers_text(&["STRING"]));
    assert!(offers_text(&["UTF8_STRING"]));
    assert!(offers_text(&["image/png", "text/plain"]));
}

#[test]
fn offers_text_false_for_image_only() {
    assert!(!offers_text(&["image/png"]));
    assert!(!offers_text(&[
        "image/png",
        "application/x-qt-image",
        "image/bmp"
    ]));
}

#[test]
fn offers_text_false_for_empty_list() {
    assert!(!offers_text(&[]));
}

fn result(success: bool, stdout: &str, stderr: &str) -> Option<CommandResult> {
    Some(CommandResult {
        success,
        stdout: stdout.to_string(),
        stderr: stderr.to_string(),
    })
}

fn progress(listing: Option<CommandResult>, reading: Option<CommandResult>) -> PasteProgress {
    PasteProgress { listing, reading }
}

#[test]
fn the_types_are_listed_before_anything_is_read() {
    match run_wl_paste(false, &progress(None, None)) {
        PasteStep::List(args) => assert_eq!(args, ["--list-types"]),
        other => panic!("{other:?}"),
    }
    match WaylandClipboard.get_primary_selection(&progress(None, None)) {
        PasteStep::List(args) => assert_eq!(args, ["--list-types", "--primary"]),
        other => panic!("{other:?}"),
    }
    let listed = progress(result(true, "text/html\r\n text/plain \n", ""), None);
    match run_wl_paste(true, &listed) {
        PasteStep::Read(args) => {
            assert_eq!(args, ["--no-newline", "--type", "text/plain", "--primary"])
        }
        other => panic!("{other:?}"),
    }
    match WaylandClipboard.get_text(&listed) {
        PasteStep::Read(args) => assert_eq!(args, ["--no-newline", "--type", "text/plain"]),
        other => panic!("{other:?}"),
    }
}

#[test]
fn an_empty_clipboard_reads_as_the_empty_text() {
    for p in [
        progress(result(true, "", ""), None),
        progress(result(false, "", "Nothing is COPIED\n"), None),
    ] {
        match run_wl_paste(false, &p) {
            PasteStep::Done(text) => assert_eq!(text, ""),
            other => panic!("{other:?}"),
        }
    }
}

#[test]
fn an_image_is_an_error_and_never_read() {
    let p = progress(
        result(true, "image/png\nimage/bmp\n", ""),
        result(true, "bytes", ""),
    );
    match run_wl_paste(false, &p) {
        PasteStep::Fail(PasteError::NotText(types)) => {
            assert_eq!(types, ["image/png", "image/bmp"])
        }
        other => panic!("{other:?}"),
    }
    // A blank line is a type that is no text.
    match run_wl_paste(false, &progress(result(true, "\n", ""), None)) {
        PasteStep::Fail(PasteError::NotText(types)) => assert_eq!(types, [""]),
        other => panic!("{other:?}"),
    }
}

#[test]
fn failures_carry_what_the_command_said() {
    match paste_step(false, &progress(result(false, "", "no display"), None), false) {
        PasteStep::Fail(PasteError::ListFailed(s)) => assert_eq!(s, "no display"),
        other => panic!("{other:?}"),
    }
    let listing = result(true, "TEXT\n", "");
    match run_wl_paste(false, &progress(listing.clone(), result(false, "x", "broken"))) {
        PasteStep::Fail(PasteError::ReadFailed(s)) => assert_eq!(s, "broken"),
        other => panic!("{other:?}"),
    }
    match run_wl_paste(false, &progress(listing, result(true, "hello\n", ""))) {
        PasteStep::Done(s) => assert_eq!(s, "hello\n"),
        other => panic!("{other:?}"),
    }
}

#[test]
fn the_message_is_looked_for_in_lower_case() {
    assert!(says_nothing_copied("error: nothing is copied"));
    assert!(!says_nothing_copied("Nothing is copied"));
}

#[test]
fn the_noop_clipboard_does_nothing() {
    assert_eq!(NoopClipboard.get_text().unwrap(), "");
    assert!(NoopClipboard.set_text("kept nowhere").is_ok());
    assert_eq!(NoopClipboard.get_primary_selection().unwrap(), "");
}

#[test]
fn wayland_is_preferred_where_it_runs() {
    assert_eq!(default_clipboard(true), Clipboard::Wayland(WaylandClipboard));
    assert_eq!(default_clipboard(false), Clipboard::X11(X11Clipboard));
}
