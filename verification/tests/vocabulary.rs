use whisrs::config::types::config_path;
use whisrs::config::vocabulary::{
    merge_vocabulary, parse_vocabulary, vocabulary_file_contents, vocabulary_path,
};

fn terms(list: &[&str]) -> Vec<String> {
    list.iter().map(|s| s.to_string()).collect()
}

#[test]
fn vocabulary_file_lives_next_to_config_toml() {
    for dir in [None, Some("/home/u/.config".to_string())] {
        let vocab = vocabulary_path(&dir);
        let config = config_path(&dir);
        assert_eq!(vocab.rsplit_once('/').unwrap().1, "vocabulary.txt");
        assert_eq!(
            vocab.rsplit_once('/').unwrap().0,
            config.rsplit_once('/').unwrap().0
        );
    }
}

#[test]
fn parse_skips_blanks_and_comments_and_trims() {
    let contents = "\
# Deepgram nova-3 keyterms: this casing comes back.
whisrs

  Visual Code  \n\
\t
NixOS
# trailing comment
";
    assert_eq!(
        parse_vocabulary(contents),
        vec!["whisrs", "Visual Code", "NixOS"]
    );
}

#[test]
fn parse_keeps_inline_hash() {
    assert_eq!(parse_vocabulary("C# dev\n"), vec!["C# dev"]);
}

#[test]
fn parse_empty_and_comment_only_files_yield_no_terms() {
    assert!(parse_vocabulary("").is_empty());
    assert!(parse_vocabulary("# only a comment\n\n").is_empty());
}

#[test]
fn parse_strips_a_leading_utf8_bom() {
    assert_eq!(
        parse_vocabulary("\u{feff}NixOS\nwhisrs\n"),
        vec!["NixOS", "whisrs"]
    );
}

#[test]
fn parse_bom_only_file_yields_no_terms() {
    assert!(parse_vocabulary("\u{feff}").is_empty());
    assert!(parse_vocabulary("\u{feff}\n").is_empty());
}

#[test]
fn merge_puts_config_first_and_drops_duplicates() {
    let config = vec!["whisrs".to_string(), "GNOME".to_string()];
    let file = vec![
        "Deepgram".to_string(),
        "whisrs".to_string(),
        "NixOS".to_string(),
    ];
    assert_eq!(
        merge_vocabulary(config, file),
        vec!["whisrs", "GNOME", "Deepgram", "NixOS"]
    );
}

#[test]
fn merge_is_case_sensitive() {
    let merged = merge_vocabulary(vec!["whisrs".to_string()], vec!["Whisrs".to_string()]);
    assert_eq!(merged, vec!["whisrs", "Whisrs"]);
}

#[test]
fn write_then_load_round_trips() {
    assert_eq!(vocabulary_file_contents(&[]), "");
    assert!(parse_vocabulary("").is_empty());

    let list = terms(&["whisrs", "Visual Code"]);
    let contents = vocabulary_file_contents(&list);
    assert_eq!(parse_vocabulary(&contents), list);
}

#[test]
fn write_then_parse_round_trips_every_term() {
    let list = terms(&[
        "#1",
        "#rust",
        "\\#literal",
        "\\backslash",
        "\\",
        "  #padded",
        "C# dev",
        "Visual Code",
        "NixOS",
        "whisrs",
    ]);
    let written = vocabulary_file_contents(&list);
    assert_eq!(
        parse_vocabulary(&written),
        list,
        "written form did not round-trip:\n{written}"
    );
}

#[test]
fn empty_and_whitespace_only_terms_are_dropped_not_round_tripped() {
    let list = terms(&["", "   ", "\t", "NixOS"]);
    assert_eq!(
        parse_vocabulary(&vocabulary_file_contents(&list)),
        terms(&["NixOS"])
    );
}

#[test]
fn a_leading_hash_term_is_escaped_and_comments_still_work() {
    assert_eq!(
        vocabulary_file_contents(&terms(&["#1", "NixOS"])),
        "\\#1\nNixOS\n"
    );
    assert_eq!(
        parse_vocabulary("# a real comment\n\\#1\nNixOS\n"),
        vec!["#1", "NixOS"]
    );
}

#[test]
fn a_line_that_is_only_an_escape_holds_no_term() {
    assert_eq!(parse_vocabulary("\\\n\\\\\n"), ["\\"]);
}

#[test]
fn padding_does_not_survive_without_an_escape() {
    assert_eq!(
        parse_vocabulary(&vocabulary_file_contents(&terms(&[" a", "b "]))),
        ["a", "b"]
    );
}
