use whisrs::config::backend_setup::BackendConfigSelection;
use whisrs::config::editors::{
    add_llm_command, command_action, command_choices, command_menu, edit_audio_device,
    edit_backend, edit_clipboard_fallback, edit_clipboard_only, edit_feedback, edit_filler_words,
    edit_hotkeys, edit_key_delay, edit_language, edit_llm, edit_media_hooks, edit_one_llm_command,
    edit_silence_timeout, edit_tray_overlay, edit_vocabulary_and_prompt, has_llm_command,
    llm_label, optional_answer, remove_llm_command, select_llm_command, truncate_for_menu,
    CommandAction,
};
use whisrs::config::session::default_config;
use whisrs::config::types::{DeepgramConfig, GroqConfig, LlmConfig, OverlayConfig};

#[test]
fn switching_backends_keeps_the_other_sections() {
    let mut config = default_config();
    config.groq = Some(GroqConfig {
        api_key: "groq-key".to_string(),
        model: "m".to_string(),
    });
    let mut sections = BackendConfigSelection::default();
    sections.deepgram = Some(DeepgramConfig {
        api_key: "deepgram-key".to_string(),
        model: "nova-3".to_string(),
    });
    edit_backend(&mut config, "deepgram".to_string(), sections);
    assert_eq!(config.general.backend, "deepgram");
    assert_eq!(config.deepgram.as_ref().unwrap().api_key, "deepgram-key");
    assert_eq!(config.groq.as_ref().unwrap().api_key, "groq-key");
    edit_backend(
        &mut config,
        "local-vosk".to_string(),
        BackendConfigSelection::default(),
    );
    assert!(config.deepgram.is_some() && config.groq.is_some());
}

#[test]
fn numbers_are_taken_over_only_where_they_are_numbers() {
    let mut config = default_config();
    assert!(edit_silence_timeout(&mut config, "1500"));
    assert_eq!(config.general.silence_timeout_ms, 1500);
    for bad in ["", "-1", "1.5", " 7", "+", "18446744073709551616"] {
        assert!(!edit_silence_timeout(&mut config, bad), "{bad:?}");
        assert_eq!(config.general.silence_timeout_ms, 1500);
    }
    assert!(edit_silence_timeout(&mut config, "+0"));
    assert_eq!(config.general.silence_timeout_ms, 0);
    assert!(edit_silence_timeout(&mut config, "18446744073709551615"));
    assert_eq!(config.general.silence_timeout_ms, u64::MAX);
    assert!(edit_key_delay(&mut config, "12"));
    assert!(!edit_key_delay(&mut config, "soon"));
    assert_eq!(config.input.key_delay_ms, 12);
}

#[test]
fn the_volume_stays_between_zero_and_one() {
    let mut config = default_config();
    for (volume, kept) in [
        (0.25f32, 0.25f32),
        (-0.5, 0.0),
        (7.0, 1.0),
        (f32::INFINITY, 1.0),
        (f32::NEG_INFINITY, 0.0),
        (1.0, 1.0),
    ] {
        edit_feedback(&mut config, false, true, Some(volume.to_bits()));
        assert_eq!(config.general.audio_feedback_volume, kept.to_bits(), "{volume}");
        assert_eq!(kept, volume.clamp(0.0, 1.0));
    }
    assert!(!config.general.notify && config.general.audio_feedback);
    edit_feedback(&mut config, true, true, Some((-0.0f32).to_bits()));
    assert_eq!(config.general.audio_feedback_volume, (-0.0f32).clamp(0.0, 1.0).to_bits());
    edit_feedback(&mut config, true, true, Some(f32::NAN.to_bits()));
    assert!(f32::from_bits(config.general.audio_feedback_volume).is_nan());
    edit_feedback(&mut config, true, true, Some(0.5f32.to_bits()));
    edit_feedback(&mut config, true, true, None);
    edit_feedback(&mut config, true, false, Some(0.75f32.to_bits()));
    assert_eq!(config.general.audio_feedback_volume, 0.5f32.to_bits());
    assert!(!config.general.audio_feedback);
}

#[test]
fn filler_words_are_edited_only_where_they_are_removed() {
    let mut config = default_config();
    edit_filler_words(&mut config, true, &Some("um, uh".to_string()));
    assert_eq!(config.general.filler_words, ["um", "uh"]);
    edit_filler_words(&mut config, false, &Some("like".to_string()));
    assert!(!config.general.remove_filler_words);
    assert_eq!(config.general.filler_words, ["um", "uh"]);
    edit_filler_words(&mut config, true, &None);
    assert_eq!(config.general.filler_words, ["um", "uh"]);
    edit_filler_words(&mut config, true, &Some(String::new()));
    assert!(config.general.filler_words.is_empty());
}

#[test]
fn a_blank_prompt_is_none() {
    let mut config = default_config();
    edit_vocabulary_and_prompt(&mut config, "a, b", " be terse ".to_string());
    assert_eq!(config.general.vocabulary, ["a", "b"]);
    assert_eq!(config.general.prompt.as_deref(), Some(" be terse "));
    edit_vocabulary_and_prompt(&mut config, "", "  ".to_string());
    assert!(config.general.vocabulary.is_empty());
    assert_eq!(config.general.prompt, None);
    assert_eq!(optional_answer("\t".to_string()), None);
}

#[test]
fn simple_settings_are_set() {
    let mut config = default_config();
    edit_language(&mut config, "de".to_string());
    edit_audio_device(&mut config, "usb".to_string());
    edit_clipboard_fallback(&mut config, true);
    edit_clipboard_only(&mut config, true);
    assert_eq!(config.general.language, "de");
    assert_eq!(config.audio.device, "usb");
    assert!(config.input.clipboard_fallback && config.input.clipboard_only);
}

#[test]
fn edit_hotkeys_prompts_for_every_field() {
    let s = |x: &str| x.to_string();
    let mut config = default_config();
    edit_hotkeys(&mut config, s("a"), s("b"), s("c"), s("d"));
    let h = config.hotkeys.clone().unwrap();
    assert_eq!(h.toggle.as_deref(), Some("a"));
    assert_eq!(h.cancel.as_deref(), Some("b"));
    assert_eq!(h.command.as_deref(), Some("c"));
    assert_eq!(h.speak.as_deref(), Some("d"));
    edit_hotkeys(&mut config, s(" "), s(""), s(" "), s("d"));
    let h = config.hotkeys.clone().unwrap();
    assert_eq!(h.toggle, None);
    assert_eq!(h.speak.as_deref(), Some("d"));
    edit_hotkeys(&mut config, s(" "), s(""), s(" "), s(" "));
    assert!(config.hotkeys.is_none());
}

#[test]
fn empty_hooks_are_dropped() {
    let s = |x: &str| x.to_string();
    let mut config = default_config();
    edit_media_hooks(&mut config, false, s("pause"), s(" "));
    let hooks = config.hooks.clone().unwrap();
    assert_eq!(hooks.on_record_start.as_deref(), Some("pause"));
    assert_eq!(hooks.on_record_stop, None);
    edit_media_hooks(&mut config, true, s(""), s(""));
    assert!(config.hooks.as_ref().unwrap().media_auto_pause);
    edit_media_hooks(&mut config, false, s(""), s(" "));
    assert!(config.hooks.is_none());
}

#[test]
fn the_overlay_keeps_what_was_set_by_hand() {
    let mut config = default_config();
    config.overlay = Some(OverlayConfig {
        theme: "custom".to_string(),
        width: 111,
        height: 30,
        colors: None,
    });
    edit_tray_overlay(&mut config, false, true, 1);
    let overlay = config.overlay.clone().unwrap();
    assert_eq!((overlay.theme.as_str(), overlay.width, overlay.height), ("ember", 111, 30));
    assert!(!config.general.tray && config.general.overlay);
    edit_tray_overlay(&mut config, true, false, 2);
    assert_eq!(config.overlay.as_ref().unwrap().theme, "ember");
    config.overlay = None;
    edit_tray_overlay(&mut config, true, true, 2);
    assert_eq!(config.overlay.unwrap().theme, "cyan");
}

#[test]
fn the_language_model_is_replaced_removed_or_kept() {
    let mut config = default_config();
    assert_eq!(llm_label(&config), "not configured");
    let llm = LlmConfig {
        api_key: "abcdefgh".to_string(),
        model: "m".to_string(),
        api_url: "u".to_string(),
    };
    edit_llm(&mut config, 0, Some(llm.clone()));
    assert_eq!(llm_label(&config), "m (****efgh)");
    edit_llm(&mut config, 0, None);
    edit_llm(&mut config, 2, None);
    assert!(config.llm.is_some());
    edit_llm(&mut config, 1, Some(llm));
    assert!(config.llm.is_none());
}

#[test]
fn custom_commands_are_added_edited_and_removed() {
    let s = |x: &str| x.to_string();
    let mut config = default_config();
    assert_eq!(command_menu(true), ["Add new", "Done"]);
    assert_eq!(command_action(0, true), CommandAction::Add);
    assert_eq!(command_action(1, true), CommandAction::Done);
    assert_eq!(command_action(1, false), CommandAction::Edit);
    assert_eq!(command_action(2, false), CommandAction::Remove);
    assert_eq!(command_action(3, false), CommandAction::Done);
    assert_eq!(command_menu(false).len(), 4);

    assert!(add_llm_command(&mut config, s("de"), s("Super+G"), "  ", s("German")));
    assert!(add_llm_command(&mut config, s("fr"), s("Super+F"), " Super+H ", s("French")));
    assert!(!add_llm_command(&mut config, s("de"), s("x"), "", s("y")));
    assert_eq!(config.llm_commands.len(), 2);
    assert_eq!(config.llm_commands[0].set_hotkey, None);
    assert_eq!(config.llm_commands[1].set_hotkey.as_deref(), Some("Super+H"));
    assert!(has_llm_command(&config, "fr") && !has_llm_command(&config, "it"));
    assert_eq!(command_choices(&config), ["de (Super+G)", "fr (Super+F)", "Cancel"]);
    assert_eq!(select_llm_command(&config, 1), Some(1));
    assert_eq!(select_llm_command(&config, 2), None);

    edit_one_llm_command(&mut config, 0, s("it"), s("Super+I"), "", s("Italian"));
    assert_eq!(config.llm_commands[0].name, "it");
    assert_eq!(config.llm_commands[1].name, "fr");
    let removed = remove_llm_command(&mut config, 0);
    assert_eq!(removed.instruction, "Italian");
    assert_eq!(config.llm_commands.len(), 1);
}

#[test]
fn long_instructions_are_cut_for_the_menu() {
    let fifty = "é".repeat(50);
    assert_eq!(truncate_for_menu(&fifty), fifty);
    assert_eq!(truncate_for_menu(&"é".repeat(51)), format!("{fifty}…"));
    assert_eq!(truncate_for_menu(""), "");
}
