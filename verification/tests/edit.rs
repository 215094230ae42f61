use whisrs::config::editors::any_hotkey_set;
use whisrs::config::save_plan::{
    config_toml_vocabulary, normalized_vocabulary, parse_csv_list, should_migrate_vocabulary,
    vocabulary_save_plan, VocabularyBaseline, VocabularySavePlan,
};
use whisrs::config::secrets::{
    current_key_summary, daemon_status_string, mask_api_key, masked_config,
};
use whisrs::config::session::{
    default_config, leaves_menu, menu_choices, menu_entry, plan_save, save_and_restart,
    start_session, ConfigSession, MenuEntry, SaveProgress, SaveStep, VocabularyRead,
};
use whisrs::config::types::{
    AsrSidecarConfig, Config, DeepgramConfig, GroqConfig, HotkeyConfig, LlmConfig,
    OpenAiCompatibleRealtimeConfig, OpenAiConfig, TtsConfig, WhisrsError,
};
use whisrs::config::vocabulary::{merge_vocabulary, parse_vocabulary};
use whisrs::service::{restart_advice, RestartAdvice, RestartOutcome, ServiceManager};

fn terms(list: &[&str]) -> Vec<String> {
    list.iter().map(|s| s.to_string()).collect()
}

#[test]
fn without_a_vocabulary_file_nothing_migrates() {
    assert!(!should_migrate_vocabulary(
        false,
        &terms(&["whisrs"]),
        &terms(&["whisrs", "NixOS"])
    ));
}

#[test]
fn an_unchanged_vocabulary_does_not_migrate() {
    // Equal by value, not the same Vec: the save path compares the list
    // the editor started from against the one it ends with.
    assert!(!should_migrate_vocabulary(
        true,
        &terms(&["whisrs", "Hyprland"]),
        &terms(&["whisrs", "Hyprland"])
    ));
}

#[test]
fn an_empty_vocabulary_file_alone_does_not_migrate() {
    assert!(!should_migrate_vocabulary(true, &[], &[]));
    assert!(!should_migrate_vocabulary(
        true,
        &terms(&["whisrs"]),
        &terms(&["whisrs"])
    ));
}

#[test]
fn any_vocabulary_edit_migrates() {
    let baseline = terms(&["whisrs", "Hyprland"]);
    for current in [
        terms(&["whisrs", "Hyprland", "NixOS"]),
        terms(&["whisrs"]),
        terms(&["Hyprland", "whisrs"]),
    ] {
        assert!(
            should_migrate_vocabulary(true, &baseline, &current),
            "editing {baseline:?} into {current:?} must migrate"
        );
    }
}

#[test]
fn clearing_the_vocabulary_migrates() {
    assert!(should_migrate_vocabulary(
        true,
        &terms(&["whisrs", "Hyprland"]),
        &[]
    ));
}

#[test]
fn a_case_only_vocabulary_change_migrates() {
    assert!(should_migrate_vocabulary(
        true,
        &terms(&["whisrs"]),
        &terms(&["Whisrs"])
    ));
}

fn baseline(use_file: bool, config_toml: &[&str], file: &[&str]) -> VocabularyBaseline {
    VocabularyBaseline {
        use_file,
        config_toml: terms(config_toml),
        merged: merge_vocabulary(terms(config_toml), terms(file)),
    }
}

#[test]
fn an_untouched_save_leaves_config_toml_holding_only_its_own_terms() {
    let vocab = baseline(true, &["whisrs"], &["NixOS"]);
    let current = vocab.merged.clone();
    assert_eq!(
        config_toml_vocabulary(&vocab, &current),
        terms(&["whisrs"]),
        "NixOS lives in vocabulary.txt and must not be copied into config.toml"
    );
}

#[test]
fn an_edited_vocabulary_empties_config_toml() {
    let vocab = baseline(true, &["whisrs"], &["NixOS"]);
    assert!(
        config_toml_vocabulary(&vocab, &terms(&["whisrs", "NixOS", "Hyprland"])).is_empty()
    );
    assert!(config_toml_vocabulary(&vocab, &[]).is_empty());
}

#[test]
fn without_a_vocabulary_file_config_toml_keeps_the_edited_list() {
    let vocab = baseline(false, &["whisrs"], &[]);
    assert_eq!(
        config_toml_vocabulary(&vocab, &terms(&["whisrs", "Hyprland"])),
        terms(&["whisrs", "Hyprland"])
    );
}

struct PlanRow {
    what: &'static str,
    use_file: bool,
    config_toml: &'static [&'static str],
    file: &'static [&'static str],
    current: &'static [&'static str],
    expect_config_toml: &'static [&'static str],
    expect_file: Option<&'static [&'static str]>,
}

#[test]
fn the_vocabulary_save_plan_covers_every_state() {
    let rows = [
        PlanRow {
            what: "no vocabulary.txt, vocabulary untouched",
            use_file: false,
            config_toml: &["whisrs"],
            file: &[],
            current: &["whisrs"],
            expect_config_toml: &["whisrs"],
            expect_file: None,
        },
        PlanRow {
            what: "no vocabulary.txt, term added — stays in config.toml",
            use_file: false,
            config_toml: &["whisrs"],
            file: &[],
            current: &["whisrs", "NixOS"],
            expect_config_toml: &["whisrs", "NixOS"],
            expect_file: None,
        },
        PlanRow {
            what: "no vocabulary.txt, list cleared",
            use_file: false,
            config_toml: &["whisrs"],
            file: &[],
            current: &[],
            expect_config_toml: &[],
            expect_file: None,
        },
        PlanRow {
            what: "vocabulary.txt present, vocabulary untouched — neither store moves",
            use_file: true,
            config_toml: &["whisrs"],
            file: &["NixOS"],
            current: &["whisrs", "NixOS"],
            expect_config_toml: &["whisrs"],
            expect_file: None,
        },
        PlanRow {
            what: "term added — the whole merged list migrates to the file",
            use_file: true,
            config_toml: &["whisrs"],
            file: &["NixOS"],
            current: &["whisrs", "NixOS", "Deepgram"],
            expect_config_toml: &[],
            expect_file: Some(&["whisrs", "NixOS", "Deepgram"]),
        },
        PlanRow {
            what: "term removed — the file gets the survivors, config.toml is blanked",
            use_file: true,
            config_toml: &["whisrs"],
            file: &["NixOS"],
            current: &["whisrs"],
            expect_config_toml: &[],
            expect_file: Some(&["whisrs"]),
        },
        PlanRow {
            what: "reordered — order is part of the list (Deepgram budgets in order)",
            use_file: true,
            config_toml: &["whisrs"],
            file: &["NixOS"],
            current: &["NixOS", "whisrs"],
            expect_config_toml: &[],
            expect_file: Some(&["NixOS", "whisrs"]),
        },
        PlanRow {
            what: "case-only change — Deepgram echoes the casing configured",
            use_file: true,
            config_toml: &["whisrs"],
            file: &["NixOS"],
            current: &["Whisrs", "NixOS"],
            expect_config_toml: &[],
            expect_file: Some(&["Whisrs", "NixOS"]),
        },
        PlanRow {
            what: "everything deleted — the file is written empty, not left holding terms",
            use_file: true,
            config_toml: &["whisrs"],
            file: &["NixOS"],
            current: &[],
            expect_config_toml: &[],
            expect_file: Some(&[]),
        },
        PlanRow {
            what: "empty vocabulary.txt, nothing anywhere — its existence is not an edit",
            use_file: true,
            config_toml: &[],
            file: &[],
            current: &[],
            expect_config_toml: &[],
            expect_file: None,
        },
        PlanRow {
            what: "empty vocabulary.txt, config.toml terms untouched — they stay put",
            use_file: true,
            config_toml: &["whisrs"],
            file: &[],
            current: &["whisrs"],
            expect_config_toml: &["whisrs"],
            expect_file: None,
        },
        PlanRow {
            what: "empty vocabulary.txt, term added — now the file is written",
            use_file: true,
            config_toml: &["whisrs"],
            file: &[],
            current: &["whisrs", "NixOS"],
            expect_config_toml: &[],
            expect_file: Some(&["whisrs", "NixOS"]),
        },
        PlanRow {
            // The editor round-trips through `join(", ")` + `parse_csv_list`,
            // which trims. A padded config.toml term must not read as an edit.
            what: "padded config.toml term, editor opened and left alone",
            use_file: true,
            config_toml: &[" whisrs "],
            file: &["NixOS"],
            current: &["whisrs", "NixOS"],
            expect_config_toml: &[" whisrs "],
            expect_file: None,
        },
        PlanRow {
            // Same, for the other half of that round trip: the editor's
            // input format splits on commas.
            what: "comma-containing config.toml term, editor opened and left alone",
            use_file: true,
            config_toml: &["Visual, Code"],
            file: &["NixOS"],
            current: &["Visual", "Code", "NixOS"],
            expect_config_toml: &["Visual, Code"],
            expect_file: None,
        },
    ];

    for row in rows {
        let vocab = baseline(row.use_file, row.config_toml, row.file);
        let plan = vocabulary_save_plan(&vocab, &terms(row.current));
        assert_eq!(
            plan,
            VocabularySavePlan {
                config_toml: terms(row.expect_config_toml),
                vocabulary_txt: row.expect_file.map(terms),
            },
            "{}",
            row.what
        );
    }
}

#[test]
fn a_save_that_never_opened_the_vocabulary_editor_does_not_migrate() {
    let vocab = baseline(true, &[" whisrs ", "Visual, Code"], &["NixOS"]);
    let untouched = vocab.merged.clone();
    assert_eq!(
        vocabulary_save_plan(&vocab, &untouched).vocabulary_txt,
        None
    );
}

/// What a save leaves in the two stores: the list of the configuration, and
/// the contents of the vocabulary file.
fn run_save(
    vocab: &VocabularyBaseline,
    current: &[&str],
    vocabulary_txt: &str,
) -> (Vec<String>, String, bool) {
    let mut config = default_config();
    config.general.vocabulary = terms(current);
    let plan = plan_save(ConfigSession {
        config,
        fresh: false,
        baseline: vocab.clone(),
    });
    let written = plan.vocabulary_file.is_some();
    (
        plan.config.general.vocabulary,
        plan.vocabulary_file
            .unwrap_or_else(|| vocabulary_txt.to_string()),
        written,
    )
}

#[test]
fn a_migrating_save_writes_the_whole_list_to_the_file_and_blanks_config_toml() {
    let vocab = baseline(true, &["whisrs"], &["NixOS"]);
    let (config_toml, file, written) = run_save(
        &vocab,
        &["whisrs", "NixOS", "Deepgram"],
        "# hand-written\nNixOS\n",
    );
    assert!(written);
    assert_eq!(
        parse_vocabulary(&file),
        terms(&["whisrs", "NixOS", "Deepgram"]),
        "vocabulary.txt must hold every term the editor showed"
    );
    assert!(
        config_toml.is_empty(),
        "config.toml must be blanked so no term is stored twice"
    );
}

#[test]
fn a_save_without_a_vocabulary_edit_leaves_both_stores_alone() {
    let seeded = "# Deepgram keyterms\n\n# proper nouns\nNixOS\n";
    let vocab = baseline(true, &["whisrs"], &["NixOS"]);
    let (config_toml, file, written) = run_save(&vocab, &["whisrs", "NixOS"], seeded);
    assert!(!written);
    assert_eq!(
        file, seeded,
        "an untouched vocabulary must not cost the user their comments"
    );
    assert_eq!(
        config_toml,
        terms(&["whisrs"]),
        "config.toml keeps its own half; the file's terms must not leak in"
    );
}

#[test]
fn an_unedited_pass_through_the_editor_does_not_migrate() {
    let seeded = "# grouped by project\nNixOS\n\n# people\nVisual\n";
    let vocab = baseline(true, &[" whisrs ", "Visual, Code"], &["NixOS", "Visual"]);
    // Exactly what the editor hands back when the user accepts the default.
    let echoed = normalized_vocabulary(&vocab.merged);
    let echoed: Vec<&str> = echoed.iter().map(String::as_str).collect();

    let (config_toml, file, written) = run_save(&vocab, &echoed, seeded);
    assert!(!written, "an unedited pass must not write the file");
    assert_eq!(file, seeded);
    assert_eq!(
        config_toml,
        terms(&[" whisrs ", "Visual, Code"]),
        "config.toml must keep its terms verbatim"
    );
}

#[test]
fn a_deleted_term_cannot_resurrect_from_config_toml() {
    let vocab = baseline(true, &["whisrs", "ghost"], &["NixOS"]);
    let (config_toml, file, _) = run_save(&vocab, &["whisrs", "NixOS"], "NixOS\n");
    let merged = merge_vocabulary(config_toml, parse_vocabulary(&file));
    assert_eq!(
        merged,
        terms(&["whisrs", "NixOS"]),
        "the daemon must load exactly what the editor showed after the delete"
    );
}

#[test]
fn a_hash_leading_term_survives_the_migration() {
    let vocab = baseline(true, &["#1", "NixOS"], &[]);
    let (config_toml, file, _) = run_save(&vocab, &["#1", "NixOS", "Deepgram"], "");
    let merged = merge_vocabulary(config_toml, parse_vocabulary(&file));
    assert_eq!(merged, terms(&["#1", "NixOS", "Deepgram"]));
}

#[test]
fn an_empty_hotkey_section_is_dropped() {
    assert!(!any_hotkey_set(&HotkeyConfig::default()));
}

#[test]
fn any_single_binding_keeps_the_section() {
    for field in ["toggle", "cancel", "command", "speak"] {
        let mut hotkeys = HotkeyConfig::default();
        match field {
            "toggle" => hotkeys.toggle = Some("Super+Shift+D".into()),
            "cancel" => hotkeys.cancel = Some("Super+Shift+Escape".into()),
            "command" => hotkeys.command = Some("Super+Shift+C".into()),
            "speak" => hotkeys.speak = Some("Super+Shift+R".into()),
            other => panic!("unhandled hotkey field `{other}` — add it to this test"),
        }
        assert!(
            any_hotkey_set(&hotkeys),
            "a lone `{field}` binding was treated as an empty section and dropped"
        );
    }
}

/// A configuration with a key in every section that can have one.
fn populated_config() -> Config {
    let mut config = default_config();
    config.deepgram = Some(DeepgramConfig {
        api_key: "deepgram-SECRET-aaaa".into(),
        model: "nova-3".into(),
    });
    config.groq = Some(GroqConfig {
        api_key: "groq-SECRET-bbbb".into(),
        model: "whisper-large-v3-turbo".into(),
    });
    config.openai = Some(OpenAiConfig {
        api_key: "openai-SECRET-cccc".into(),
        model: "whisper-1".into(),
    });
    config.asr_sidecar = Some(AsrSidecarConfig {
        url: "http://127.0.0.1:8765/transcribe".into(),
        model: "m".into(),
        api_key: Some("sidecar-SECRET-dddd".into()),
    });
    config.openai_compatible_realtime = Some(OpenAiCompatibleRealtimeConfig {
        url: "ws://localhost/realtime".into(),
        model: "Whisper-Tiny".into(),
        profile: "lemonade".into(),
        turn_detection: "server-vad".into(),
        api_key: Some("realtime-SECRET-eeee".into()),
    });
    config.llm = Some(LlmConfig {
        api_key: "llm-SECRET-ffff".into(),
        ..LlmConfig::default()
    });
    config.tts = Some(TtsConfig {
        api_key: Some("tts-SECRET-gggg".into()),
        ..TtsConfig::default()
    });
    config
}

#[test]
fn a_populated_config_renders_no_cleartext_key() {
    let rendered = format!("{:?}", masked_config(populated_config()));
    assert!(
        !rendered.contains("SECRET"),
        "a key survived masking:\n{rendered}"
    );
    assert_eq!(
        rendered.matches("api_key").count(),
        7,
        "every section must still print a masked api_key:\n{rendered}"
    );
    for tail in ["aaaa", "bbbb", "cccc", "dddd", "eeee", "ffff", "gggg"] {
        assert!(
            rendered.contains(&format!("****{tail}")),
            "`{tail}` section is missing its masked key:\n{rendered}"
        );
    }
}

#[test]
fn render_masked_toml_covers_every_key_bearing_section() {
    let before = populated_config();
    let masked = masked_config(before.clone());
    let keys = |c: &Config| -> Vec<String> {
        vec![
            c.deepgram.as_ref().unwrap().api_key.clone(),
            c.groq.as_ref().unwrap().api_key.clone(),
            c.openai.as_ref().unwrap().api_key.clone(),
            c.asr_sidecar.as_ref().unwrap().api_key.clone().unwrap(),
            c.openai_compatible_realtime
                .as_ref()
                .unwrap()
                .api_key
                .clone()
                .unwrap(),
            c.llm.as_ref().unwrap().api_key.clone(),
            c.tts.as_ref().unwrap().api_key.clone().unwrap(),
        ]
    };
    let shown = keys(&masked);
    assert_eq!(shown.len(), 7);
    for (key, shown) in keys(&before).iter().zip(&shown) {
        assert_eq!(*shown, mask_api_key(key));
        assert_ne!(shown, key);
    }
}

#[test]
fn a_mask_shows_the_last_four_characters_of_a_longer_key() {
    assert_eq!(mask_api_key(""), "****");
    assert_eq!(mask_api_key("abcd"), "****");
    assert_eq!(mask_api_key("abcde"), "****bcde");
    assert_eq!(mask_api_key("clé-été"), "****-été");
}

#[test]
fn the_summary_tells_which_key_is_in_use() {
    let mut config = populated_config();
    let bold = |s: &str| format!("\x1b[1m{s}\x1b[0m");
    for (backend, shown) in [
        ("groq", bold("****bbbb")),
        ("deepgram", bold("****aaaa")),
        ("deepgram-streaming", bold("****aaaa")),
        ("openai", bold("****cccc")),
        ("openai-realtime", bold("****cccc")),
        ("openai-compatible-realtime", bold("****eeee")),
        ("vibevoice", bold("****dddd")),
        (
            "local-whisper",
            "\x1b[2m(local backend — no API key needed)\x1b[0m".to_string(),
        ),
        ("other", "\x1b[33mnot set\x1b[0m".to_string()),
    ] {
        config.general.backend = backend.to_string();
        assert_eq!(current_key_summary(&config), shown, "{backend}");
    }
    let mut empty = default_config();
    for (backend, shown) in [
        ("groq", "\x1b[33mnot set\x1b[0m"),
        (
            "openai-compatible-realtime",
            "\x1b[2m(optional bearer token not set)\x1b[0m",
        ),
        ("asr", "\x1b[2m(optional API key not set)\x1b[0m"),
    ] {
        empty.general.backend = backend.to_string();
        assert_eq!(current_key_summary(&empty), shown);
    }
    assert_eq!(daemon_status_string(true), "\x1b[32mrunning\x1b[0m");
    assert_eq!(
        daemon_status_string(false),
        "\x1b[2mnot running (or no service installed)\x1b[0m"
    );
}

#[test]
fn a_list_with_commas_is_trimmed_and_freed_of_blanks() {
    assert_eq!(parse_csv_list(" um, uh ,, you know,"), ["um", "uh", "you know"]);
    assert!(parse_csv_list(" , ,").is_empty());
    assert!(parse_csv_list("").is_empty());
}

#[test]
fn normalizing_twice_is_normalizing_once() {
    let once = normalized_vocabulary(&terms(&[" a , b", "", "c"]));
    assert_eq!(once, ["a", "b", "c"]);
    assert_eq!(normalized_vocabulary(&once), once);
}

#[test]
fn a_session_starts_from_the_merged_vocabulary() {
    let mut existing = default_config();
    existing.general.vocabulary = terms(&["whisrs", "NixOS"]);
    let s = start_session(
        Some(existing.clone()),
        VocabularyRead::Terms(terms(&["NixOS", "Deepgram"])),
    );
    assert!(!s.fresh);
    assert_eq!(s.config.general.vocabulary, ["whisrs", "NixOS", "Deepgram"]);
    assert!(s.baseline.use_file);
    assert_eq!(s.baseline.config_toml, ["whisrs", "NixOS"]);
    assert_eq!(s.baseline.merged, s.config.general.vocabulary);
    let plan = plan_save(s);
    assert_eq!(plan.vocabulary_file, None);
    assert_eq!(plan.config.general.vocabulary, ["whisrs", "NixOS"]);

    for read in [VocabularyRead::Missing, VocabularyRead::Unreadable] {
        let s = start_session(Some(existing.clone()), read);
        assert!(!s.baseline.use_file);
        assert_eq!(s.config.general.vocabulary, ["whisrs", "NixOS"]);
    }
    let fresh = start_session(None, VocabularyRead::Missing);
    assert!(fresh.fresh && fresh.config.general.vocabulary.is_empty());
}

#[test]
fn the_menu_is_left_by_a_save_that_worked_or_by_discarding() {
    let labels = menu_choices();
    assert_eq!(labels.len(), 19);
    assert_eq!(labels[0], "Backend & API keys");
    assert_eq!(menu_entry(0), MenuEntry::Backend);
    assert_eq!(labels[16], "─────────");
    assert_eq!(menu_entry(16), MenuEntry::Separator);
    assert_eq!(labels[17], "Save & exit");
    assert_eq!(menu_entry(17), MenuEntry::Save);
    assert_eq!(menu_entry(18), MenuEntry::Discard);
    assert!(leaves_menu(MenuEntry::Discard, false));
    assert!(leaves_menu(MenuEntry::Save, true));
    assert!(!leaves_menu(MenuEntry::Save, false));
    assert!(!leaves_menu(MenuEntry::ShowConfig, true));
}

#[test]
fn a_save_goes_step_by_step() {
    let ok = Ok(Vec::new());
    let vocabulary = Some("NixOS\n".to_string());
    let mut p = SaveProgress::new();
    let step = |p: &SaveProgress| {
        save_and_restart(&ok, &vocabulary, "/c", "/v", true, ServiceManager::Systemd, p)
    };
    assert!(matches!(step(&p), SaveStep::WriteVocabulary(a, b) if a == "/v" && b == "NixOS\n"));
    p.vocabulary_written = Some(false);
    assert!(matches!(step(&p), SaveStep::Fail(s) if s == "failed to write /v"));
    p.vocabulary_written = Some(true);
    assert!(matches!(step(&p), SaveStep::WriteConfig(a) if a == "/c"));
    p.config_written = Some(false);
    assert!(matches!(step(&p), SaveStep::Fail(s) if s
        == "failed to write config: your vocabulary edits were already saved to /v, \
            but config.toml was not updated"));
    p.config_written = Some(true);
    assert!(matches!(step(&p), SaveStep::ReadMode(a) if a == "/c"));
    p.mode_read = true;
    p.mode = Some(0o100644);
    assert!(matches!(step(&p), SaveStep::Restrict(a) if a == "/c"));
    p.restricted = true;
    assert!(matches!(step(&p), SaveStep::Restart));
    p.restart = Some(RestartOutcome::Failed);
    assert!(matches!(step(&p), SaveStep::Done(RestartAdvice::ReadJournal, true)));

    // Permissions that are private already are left alone.
    p.restricted = false;
    p.mode = Some(0o100600);
    p.restart = None;
    assert!(matches!(step(&p), SaveStep::Restart));
}

#[test]
fn an_invalid_configuration_is_not_saved() {
    let bad = Err(WhisrsError::Config("no backend".to_string()));
    let step = save_and_restart(
        &bad,
        &Some("x".to_string()),
        "/c",
        "/v",
        false,
        ServiceManager::OpenRc,
        &SaveProgress::new(),
    );
    assert!(matches!(step, SaveStep::Refuse(s) if s == "no backend"));
    let mut p = SaveProgress::new();
    p.config_written = Some(false);
    let step = save_and_restart(
        &Ok(Vec::new()),
        &None,
        "/c",
        "/v",
        false,
        ServiceManager::OpenRc,
        &p,
    );
    assert!(matches!(step, SaveStep::Fail(s) if s == "failed to write config"));
}

#[test]
fn a_failed_restart_points_to_the_right_log() {
    assert_eq!(
        restart_advice(RestartOutcome::Restarted, ServiceManager::OpenRc),
        RestartAdvice::Restarted
    );
    assert_eq!(
        restart_advice(RestartOutcome::Failed, ServiceManager::OpenRc),
        RestartAdvice::ReadLog
    );
    assert_eq!(
        restart_advice(RestartOutcome::Failed, ServiceManager::Unmanaged),
        RestartAdvice::Failed
    );
    assert_eq!(
        restart_advice(RestartOutcome::NoService, ServiceManager::Unmanaged),
        RestartAdvice::RestartByHand
    );
}
