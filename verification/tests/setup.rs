use whisrs::config::backend_setup::{
    backend_choices, backend_value, chosen_backend, configure_backend, default_backend_index,
    default_model_dir, engine_choices, missing_engine, model_download_url, model_file_name,
    openai_model_choices, turn_detection_choices, whisper_model_choices, BackendAnswers,
    BackendConfigSelection, BackendStep, Service,
};
use whisrs::config::desktop::{
    compositor_of_desktop, detect_compositor, keybinding_host, offer_install_gnome_extension,
    setup_keybinding, setup_systemd_service, BindingHost, BindingOutcome, BindingProgress,
    BindingStep, ExtensionOutcome, ExtensionProgress, ExtensionStep, ServiceOutcome,
    ServiceProgress, ServiceStep,
};
use whisrs::config::llm_setup::{configure_llm, provider_choices, LlmAnswers, LlmStep, Provider};
use whisrs::config::permissions::{
    contrib_candidates, find_contrib_file, setup_uinput_permissions, which_program, DeviceAccess,
    Repair, UinputOutcome, UinputProgress, UinputStep,
};
use whisrs::config::session::default_config;
use whisrs::config::setup::{
    configure_overlay, default_injector_index, first_stage, injector_choices, language_choices,
    language_codes, language_names, next_stage, overlay_theme_choices, pick_overlay_theme,
    select_injector_backend, select_language, setup_config, LanguageStep, SetupAnswers,
    SetupStage,
};
use whisrs::config::types::{
    AsrSidecarConfig, Config, DeepgramConfig, GroqConfig, InjectorBackend,
    OpenAiCompatibleRealtimeConfig, OpenAiConfig,
};

fn some(s: &str) -> Option<String> {
    Some(s.to_string())
}

fn with_backend(backend: &str) -> Config {
    let mut config = default_config();
    config.general.backend = backend.to_string();
    config
}

#[test]
fn the_configured_backend_is_offered_first() {
    assert_eq!(default_backend_index(None), 0);
    assert_eq!(backend_choices().len(), 8);
    for i in 0..8 {
        let config = with_backend(backend_value(i));
        assert_eq!(default_backend_index(Some(&config)), i);
    }
    for (name, i) in [
        ("local-whisper", 6),
        ("local-vosk", 6),
        ("asr", 7),
        ("vibevoice", 7),
        ("nonsense", 0),
    ] {
        assert_eq!(default_backend_index(Some(&with_backend(name))), i, "{name}");
    }
}

#[test]
fn a_local_choice_means_whisper() {
    assert_eq!(chosen_backend(0), "groq");
    assert_eq!(chosen_backend(6), "local-whisper");
    assert_eq!(chosen_backend(7), "asr-sidecar");
    assert_eq!(engine_choices().len(), 3);
    assert_eq!(missing_engine(0), None);
    assert_eq!(missing_engine(1), Some("Vosk"));
    assert_eq!(missing_engine(2), Some("Parakeet"));
}

fn done(step: BackendStep) -> BackendConfigSelection {
    match step {
        BackendStep::Done(sel) => sel,
        other => panic!("{other:?}"),
    }
}

#[test]
fn a_service_without_a_key_asks_for_one() {
    let mut a = BackendAnswers::new();
    for (backend, service) in [
        ("groq", Service::Groq),
        ("deepgram", Service::Deepgram),
        ("deepgram-streaming", Service::Deepgram),
        ("openai", Service::OpenAi),
        ("openai-realtime", Service::OpenAi),
    ] {
        match configure_backend(backend, None, &None, &a) {
            BackendStep::EnterKey(s) => assert_eq!(s, service),
            other => panic!("{other:?}"),
        }
    }
    a.key = some("k1");
    let sel = done(configure_backend("groq", None, &None, &a));
    let groq = sel.groq.unwrap();
    assert_eq!((groq.api_key.as_str(), groq.model.as_str()), ("k1", "whisper-large-v3-turbo"));
    assert!(sel.deepgram.is_none() && sel.openai.is_none());
    let deepgram = done(configure_backend("deepgram", None, &None, &a)).deepgram.unwrap();
    assert_eq!(deepgram.model, "nova-3");
    assert_eq!(Service::OpenAi.prompt(), "OpenAI API key");
    assert!(Service::Groq.hint().contains("console.groq.com"));
}

#[test]
fn an_existing_key_is_offered_masked_and_can_be_kept() {
    let mut config = with_backend("groq");
    config.groq = Some(GroqConfig {
        api_key: "secret-key-1234".to_string(),
        model: "mine".to_string(),
    });
    config.deepgram = Some(DeepgramConfig {
        api_key: String::new(),
        model: "old".to_string(),
    });
    let mut a = BackendAnswers::new();
    match configure_backend("groq", Some(&config), &None, &a) {
        BackendStep::KeepKey(shown) => assert_eq!(shown, "****1234"),
        other => panic!("{other:?}"),
    }
    a.keep_key = Some(true);
    let groq = done(configure_backend("groq", Some(&config), &None, &a)).groq.unwrap();
    assert_eq!((groq.api_key.as_str(), groq.model.as_str()), ("secret-key-1234", "mine"));
    a.keep_key = Some(false);
    assert!(matches!(
        configure_backend("groq", Some(&config), &None, &a),
        BackendStep::EnterKey(Service::Groq)
    ));
    // An empty key is not worth keeping.
    a.keep_key = None;
    assert!(matches!(
        configure_backend("deepgram", Some(&config), &None, &a),
        BackendStep::EnterKey(Service::Deepgram)
    ));
    a.key = some("new");
    let deepgram = done(configure_backend("deepgram", Some(&config), &None, &a))
        .deepgram
        .unwrap();
    assert_eq!((deepgram.api_key.as_str(), deepgram.model.as_str()), ("new", "old"));
}

#[test]
fn openai_asks_for_a_model_unless_it_is_realtime() {
    let mut a = BackendAnswers::new();
    a.key = some("k");
    let realtime = done(configure_backend("openai-realtime", None, &None, &a));
    assert_eq!(realtime.openai.unwrap().model, "gpt-realtime-whisper");
    assert!(matches!(
        configure_backend("openai", None, &None, &a),
        BackendStep::PickOpenAiModel
    ));
    assert_eq!(openai_model_choices().len(), 3);
    for (i, model) in ["gpt-4o-mini-transcribe", "gpt-4o-transcribe", "whisper-1"]
        .iter()
        .enumerate()
    {
        a.openai_model = Some(i);
        let sel = done(configure_backend("openai", None, &None, &a));
        assert_eq!(sel.openai.unwrap().model, *model);
    }
    let mut config = with_backend("openai");
    config.openai = Some(OpenAiConfig {
        api_key: "abcdefgh".to_string(),
        model: "x".to_string(),
    });
    assert!(matches!(
        configure_backend("openai", Some(&config), &None, &BackendAnswers::new()),
        BackendStep::KeepKey(s) if s == "****efgh"
    ));
}

#[test]
fn the_compatible_backend_is_asked_for_field_by_field() {
    let mut config = with_backend("openai-compatible-realtime");
    config.openai_compatible_realtime = Some(OpenAiCompatibleRealtimeConfig {
        url: "ws://old".to_string(),
        model: "old-model".to_string(),
        profile: "lemonade".to_string(),
        turn_detection: " manual-commit ".to_string(),
        api_key: some("  "),
    });
    let name = "openai-compatible-realtime";
    let step = |a: &BackendAnswers| configure_backend(name, Some(&config), &None, a);
    let mut a = BackendAnswers::new();
    assert!(matches!(step(&a), BackendStep::EnterUrl(s) if s == "ws://old"));
    a.url = some("ws://new");
    assert!(matches!(step(&a), BackendStep::EnterModel(s) if s == "old-model"));
    a.model = some("m");
    assert!(matches!(step(&a), BackendStep::PickProfile(0)));
    a.profile = Some(0);
    assert!(matches!(step(&a), BackendStep::PickTurnDetection(1)));
    assert_eq!(turn_detection_choices().len(), 2);
    a.turn_detection = Some(1);
    // A blank token is kept as it is, where the user keeps it.
    assert!(matches!(step(&a), BackendStep::KeepToken(s) if s == "****"));
    a.keep_key = Some(true);
    let kept = done(step(&a)).openai_compatible_realtime.unwrap();
    assert_eq!(kept.api_key.as_deref(), Some("  "));
    assert_eq!(kept.turn_detection, "manual-commit");
    assert_eq!(kept.profile, "lemonade");
    assert_eq!((kept.url.as_str(), kept.model.as_str()), ("ws://new", "m"));
    // A blank token that is typed is none.
    a.keep_key = Some(false);
    assert!(matches!(step(&a), BackendStep::EnterToken));
    a.key = some("  ");
    a.turn_detection = Some(0);
    let typed = done(step(&a)).openai_compatible_realtime.unwrap();
    assert_eq!(typed.api_key, None);
    assert_eq!(typed.turn_detection, "server-vad");

    let fresh = BackendAnswers::new();
    assert!(matches!(
        configure_backend(name, None, &None, &fresh),
        BackendStep::EnterUrl(s) if s == "ws://localhost:12345/realtime"
    ));
}

#[test]
fn a_whisper_model_is_looked_for_before_it_is_downloaded() {
    let data = some("/home/u/.local/share");
    let step = |a: &BackendAnswers| configure_backend("local-whisper", None, &data, a);
    let path = "/home/u/.local/share/whisrs/models/ggml-small.en.bin";
    let mut a = BackendAnswers::new();
    assert!(matches!(step(&a), BackendStep::PickWhisperModel(1)));
    assert_eq!(whisper_model_choices().len(), 3);
    a.whisper_model = Some(2);
    assert!(matches!(step(&a), BackendStep::LookForModel(p) if p == path));
    a.model_present = Some(false);
    assert!(matches!(step(&a), BackendStep::OfferDownload(p) if p == path));
    a.download = Some(0);
    match step(&a) {
        BackendStep::Download(url, dest) => {
            assert_eq!(dest, path);
            assert_eq!(
                url,
                "https://huggingface.co/ggerganov/whisper.cpp/resolve/main/ggml-small.en.bin"
            );
        }
        other => panic!("{other:?}"),
    }
    a.downloaded = true;
    let local = done(step(&a)).local_whisper.unwrap();
    assert_eq!(local.model_path, path);
    assert_eq!((local.segmentation.as_str(), local.phrase_silence_ms), ("silence", 400));
    a.downloaded = false;
    a.download = Some(1);
    assert!(matches!(step(&a), BackendStep::Done(_)));
    a.download = None;
    a.model_present = Some(true);
    assert!(matches!(step(&a), BackendStep::Done(_)));
    assert_eq!(default_model_dir(&None), "~/.local/share/whisrs/models");
    assert_eq!(model_file_name("tiny.en"), "ggml-tiny.en.bin");
    assert!(model_download_url("tiny.en").ends_with("/main/ggml-tiny.en.bin"));
}

#[test]
fn the_sidecar_keeps_its_key() {
    let mut config = with_backend("vibevoice");
    config.asr_sidecar = Some(AsrSidecarConfig {
        url: "http://old".to_string(),
        model: "m1".to_string(),
        api_key: some("k"),
    });
    let mut a = BackendAnswers::new();
    assert!(matches!(
        configure_backend("vibevoice", Some(&config), &None, &a),
        BackendStep::EnterUrl(s) if s == "http://old"
    ));
    assert!(matches!(
        configure_backend("asr-sidecar", None, &None, &a),
        BackendStep::EnterUrl(s) if s == "http://127.0.0.1:8765/transcribe"
    ));
    a.url = some("http://new");
    assert!(matches!(
        configure_backend("asr", None, &None, &a),
        BackendStep::EnterModel(s) if s == "microsoft/VibeVoice-ASR-HF"
    ));
    a.model = some("m2");
    let sidecar = done(configure_backend("asr", Some(&config), &None, &a)).asr_sidecar.unwrap();
    assert_eq!((sidecar.url.as_str(), sidecar.model.as_str()), ("http://new", "m2"));
    assert_eq!(sidecar.api_key.as_deref(), Some("k"));
}

#[test]
fn an_unknown_backend_needs_nothing() {
    let sel = done(configure_backend("local-vosk", None, &None, &BackendAnswers::new()));
    assert!(sel.local_whisper.is_none() && sel.groq.is_none());
}

#[test]
fn a_language_model_is_chosen_step_by_step() {
    let mut a = LlmAnswers::new();
    assert!(matches!(configure_llm(&a), LlmStep::PickProvider(4)));
    a.provider = Some(4);
    assert!(matches!(configure_llm(&a), LlmStep::Skipped));
    a.provider = Some(1);
    match configure_llm(&a) {
        LlmStep::PickModel(items) => {
            assert_eq!(items.len(), 6);
            assert!(items[0].starts_with("qwen-qwq-32b"));
            assert_eq!(items[5], "Other (enter model name manually)");
        }
        other => panic!("{other:?}"),
    }
    a.model = Some(5);
    assert!(matches!(configure_llm(&a), LlmStep::EnterModel(s) if s == "qwen-qwq-32b"));
    a.model_name = some("mine");
    match configure_llm(&a) {
        LlmStep::EnterKey(prompt, hint) => {
            assert_eq!(prompt, "Groq API key");
            assert_eq!(hint, "Get one free at https://console.groq.com/keys");
        }
        other => panic!("{other:?}"),
    }
    a.key = some("k");
    match configure_llm(&a) {
        LlmStep::Done(llm) => {
            assert_eq!(llm.model, "mine");
            assert_eq!(llm.api_key, "k");
            assert_eq!(llm.api_url, "https://api.groq.com/openai/v1/chat/completions");
        }
        other => panic!("{other:?}"),
    }
    a.model = Some(2);
    assert!(
        matches!(configure_llm(&a), LlmStep::Done(llm) if llm.model == "llama-3.3-70b-versatile")
    );
}

#[test]
fn every_provider_is_named_by_the_first_word_of_its_label() {
    let labels = provider_choices();
    for (label, provider) in labels.iter().zip([
        Provider::OpenAi,
        Provider::Groq,
        Provider::OpenRouter,
        Provider::Gemini,
    ]) {
        assert_eq!(label.split_whitespace().next(), Some(provider.name()));
        assert_eq!(provider.models().len(), provider.model_labels().len());
        assert!(provider.url().ends_with("/chat/completions"));
        assert!(provider.hint().starts_with("Get one"));
    }
    assert!(labels[4].starts_with("Skip"));
}

#[test]
fn languages_are_listed_with_their_codes() {
    let items = language_choices();
    assert_eq!(items.len(), 19);
    assert_eq!(items[0], "English         (en)");
    assert_eq!(items[1], "Auto-detect     (auto)");
    assert_eq!(items[18], "Other (enter ISO 639-1 code)");
    for (i, (code, name)) in language_codes().iter().zip(language_names()).enumerate() {
        assert_eq!(items[i], format!("{name:<15} ({code})"));
    }
}

#[test]
fn a_language_is_picked_or_typed() {
    let mut config = default_config();
    config.general.language = "pl".to_string();
    assert!(matches!(select_language(None, None, &None), LanguageStep::Pick(0)));
    assert!(matches!(select_language(Some(&config), None, &None), LanguageStep::Pick(14)));
    assert!(matches!(
        select_language(None, Some(3), &None),
        LanguageStep::Done(s) if s == "fr"
    ));
    assert!(matches!(
        select_language(Some(&config), Some(18), &None),
        LanguageStep::EnterCode(s) if s == "pl"
    ));
    assert!(matches!(
        select_language(None, Some(18), &some("fi")),
        LanguageStep::Done(s) if s == "fi"
    ));
    config.general.language = "fi".to_string();
    assert!(matches!(select_language(Some(&config), None, &None), LanguageStep::Pick(0)));
}

#[test]
fn injection_backends_map_to_their_places() {
    assert_eq!(injector_choices().len(), 3);
    assert_eq!(default_injector_index(None), 0);
    for i in 0..3 {
        let mut config = default_config();
        config.input.backend = select_injector_backend(i);
        assert_eq!(default_injector_index(Some(&config)), i);
    }
}

#[test]
fn the_overlay_has_a_named_theme() {
    assert_eq!(overlay_theme_choices()[1], "Ember   — warm amber \"tally light\"");
    assert_eq!(pick_overlay_theme(0), "carbon");
    assert_eq!(pick_overlay_theme(1), "ember");
    assert_eq!(pick_overlay_theme(2), "cyan");
    assert!(configure_overlay(false, 1).is_none());
    let overlay = configure_overlay(true, 2).unwrap();
    assert_eq!(overlay.theme, "cyan");
    assert_eq!((overlay.width, overlay.height), (100, 40));
}

#[test]
fn the_setup_writes_what_was_answered_and_defaults() {
    let mut sections = BackendConfigSelection::default();
    sections.groq = Some(GroqConfig {
        api_key: "k".to_string(),
        model: "m".to_string(),
    });
    let config = setup_config(SetupAnswers {
        backend: "groq".to_string(),
        sections,
        language: "de".to_string(),
        remove_filler_words: true,
        audio_feedback: true,
        overlay: false,
        overlay_config: configure_overlay(true, 0),
        injector_backend: InjectorBackend::Uinput,
        llm: None,
    });
    assert_eq!(config.general.backend, "groq");
    assert_eq!(config.general.language, "de");
    assert!(config.general.remove_filler_words && config.general.audio_feedback);
    assert!(config.general.notify && config.general.tray);
    assert_eq!(config.general.silence_timeout_ms, 2000);
    assert_eq!(f32::from_bits(config.general.audio_feedback_volume), 0.5);
    assert_eq!(config.audio.device, "default");
    assert_eq!(config.input.backend, InjectorBackend::Uinput);
    assert_eq!(config.groq.unwrap().api_key, "k");
    assert!(config.overlay.is_none(), "an overlay that is off has no section");
}

#[test]
fn the_stages_follow_in_order() {
    assert_eq!(first_stage(false), SetupStage::Backend);
    let mut stage = first_stage(true);
    assert_eq!(next_stage(stage, 0), SetupStage::Summary);
    let mut seen = Vec::new();
    while stage != SetupStage::Finished {
        stage = next_stage(stage, 1);
        seen.push(stage);
    }
    assert_eq!(seen.len(), 14);
    let at = |s| seen.iter().position(|x| *x == s).unwrap();
    assert!(at(SetupStage::WriteConfig) < at(SetupStage::Permissions));
    assert!(at(SetupStage::Llm) < at(SetupStage::WriteConfig));
}

#[test]
fn the_device_is_repaired_only_on_request() {
    let user = some("ada");
    let step = |p: &UinputProgress| setup_uinput_permissions(p, &user);
    let mut p = UinputProgress::new();
    assert!(matches!(step(&p), UinputStep::OpenDevice));
    p.access = Some(DeviceAccess::Opened);
    assert!(matches!(step(&p), UinputStep::Done(UinputOutcome::Accessible)));
    p.access = Some(DeviceAccess::Unavailable);
    assert!(matches!(step(&p), UinputStep::Done(UinputOutcome::Unavailable)));
    p.access = Some(DeviceAccess::Denied);
    assert!(matches!(step(&p), UinputStep::FindRule));
    p.rule_searched = true;
    assert!(matches!(step(&p), UinputStep::AskFix));
    p.fix = Some(false);
    assert!(matches!(step(&p), UinputStep::Done(UinputOutcome::Declined)));
    p.fix = Some(true);
    match step(&p) {
        UinputStep::Run(Repair::InstallRule, args) => {
            assert_eq!(&args[..2], ["bash", "-c"]);
            assert!(args[2].starts_with("echo 'KERNEL==\"uinput\", SUBSYSTEM==\"misc\""));
            assert!(args[2].ends_with("/dev/$name\"' > /etc/udev/rules.d/99-whisrs.rules"));
        }
        other => panic!("{other:?}"),
    }
    p.rule_file = some("/x/99-whisrs.rules");
    match step(&p) {
        UinputStep::Run(Repair::InstallRule, args) => {
            assert_eq!(args, ["cp", "/x/99-whisrs.rules", "/etc/udev/rules.d/"])
        }
        other => panic!("{other:?}"),
    }
    p.rule_installed = Some(true);
    assert!(
        matches!(step(&p), UinputStep::Run(Repair::ReloadRules, a) if a == ["udevadm", "control", "--reload-rules"])
    );
    p.rules_reloaded = true;
    assert!(
        matches!(step(&p), UinputStep::Run(Repair::TriggerDevices, a) if a == ["udevadm", "trigger"])
    );
    p.devices_triggered = true;
    assert!(
        matches!(step(&p), UinputStep::Run(Repair::JoinGroup, a) if a == ["usermod", "-aG", "input", "ada"])
    );
    assert!(
        matches!(setup_uinput_permissions(&p, &None), UinputStep::Run(_, a) if a[3] == "unknown")
    );
    p.group_joined = Some(true);
    assert!(matches!(step(&p), UinputStep::Done(UinputOutcome::Repaired(true, true))));
    // A rule that could not be installed is not reloaded.
    let mut p = UinputProgress::new();
    p.access = Some(DeviceAccess::Denied);
    p.rule_searched = true;
    p.fix = Some(true);
    p.rule_installed = Some(false);
    assert!(matches!(step(&p), UinputStep::Run(Repair::JoinGroup, _)));
}

#[test]
fn files_of_the_installation_are_looked_for_upwards() {
    let dirs: Vec<String> = ["/a/b", "/a", "/"].iter().map(|s| s.to_string()).collect();
    let places = contrib_candidates(&dirs, "whisrs.service");
    assert_eq!(
        places,
        [
            "/a/b/contrib/whisrs.service",
            "/a/contrib/whisrs.service",
            "/contrib/whisrs.service",
            "contrib/whisrs.service"
        ]
    );
    assert_eq!(
        find_contrib_file(&places, &[false, true, true, false]).as_deref(),
        Some("/a/contrib/whisrs.service")
    );
    assert_eq!(find_contrib_file(&places, &[false; 4]), None);
}

#[test]
fn programs_are_searched_or_expected_where_cargo_puts_them() {
    assert_eq!(
        which_program(&some("/usr/bin/whisrsd\n"), &None, "whisrsd"),
        "/usr/bin/whisrsd"
    );
    assert_eq!(
        which_program(&None, &some("/home/u"), "whisrs"),
        "/home/u/.cargo/bin/whisrs"
    );
    assert_eq!(which_program(&None, &None, "whisrs"), "~/.cargo/bin/whisrs");
}

#[test]
fn the_service_is_installed_step_by_step() {
    let dir = some("/home/u/.config");
    let step = |p: &ServiceProgress| setup_systemd_service(p, &dir);
    let dest = "/home/u/.config/systemd/user/whisrs.service";
    let mut p = ServiceProgress::new();
    assert!(matches!(step(&p), ServiceStep::LookFor(s) if s == dest));
    p.installed = Some(true);
    assert!(matches!(step(&p), ServiceStep::AskState));
    p.state_asked = true;
    p.state = some(" enabled\n");
    assert!(matches!(step(&p), ServiceStep::Done(ServiceOutcome::AlreadyEnabled)));
    p.state = some("disabled\n");
    assert!(matches!(step(&p), ServiceStep::AskUser));
    p.wanted = Some(false);
    assert!(matches!(step(&p), ServiceStep::Done(ServiceOutcome::Declined)));
    p.wanted = Some(true);
    assert!(matches!(step(&p), ServiceStep::MakeDir(s) if s == "/home/u/.config/systemd/user"));
    p.dir_made = Some(false);
    assert!(matches!(step(&p), ServiceStep::Done(ServiceOutcome::NoDirectory)));
    p.dir_made = Some(true);
    assert!(matches!(step(&p), ServiceStep::FindSource));
    p.source_searched = true;
    assert!(matches!(step(&p), ServiceStep::FindDaemon));
    p.daemon_path = some("/usr/bin/whisrsd");
    match step(&p) {
        ServiceStep::Write(path, text) => {
            assert_eq!(path, dest);
            assert!(text.starts_with("[Unit]\nDescription=whisrs dictation daemon\n"));
            assert!(text.contains("\nExecStart=/usr/bin/whisrsd\nRestart=on-failure\n"));
            assert!(text.ends_with("\n[Install]\nWantedBy=default.target\n"));
        }
        other => panic!("{other:?}"),
    }
    p.source = some("/src/whisrs.service");
    assert!(
        matches!(step(&p), ServiceStep::Copy(a, b) if a == "/src/whisrs.service" && b == dest)
    );
    p.placed = Some(false);
    assert!(matches!(step(&p), ServiceStep::Done(ServiceOutcome::NotPlaced)));
    p.placed = Some(true);
    assert!(matches!(step(&p), ServiceStep::Reload));
    p.reloaded = true;
    assert!(matches!(step(&p), ServiceStep::Enable));
    p.enabled = Some(false);
    assert!(matches!(step(&p), ServiceStep::Done(ServiceOutcome::Installed(false))));
}

#[test]
fn the_compositor_is_told_from_the_environment() {
    assert_eq!(detect_compositor(true, true, &None).as_deref(), Some("hyprland"));
    assert_eq!(detect_compositor(false, true, &some("KDE")).as_deref(), Some("sway"));
    assert_eq!(detect_compositor(false, false, &None), None);
    for (desktop, name) in [
        ("Hyprland", "hyprland"),
        ("sway:wlroots", "sway"),
        ("ubuntu:GNOME", "gnome"),
        ("KDE", "kde"),
        ("plasmashell", "kde"),
        ("i3", "i3"),
        ("XFCE", "xfce"),
    ] {
        assert_eq!(detect_compositor(false, false, &some(desktop)).as_deref(), Some(name));
    }
    assert_eq!(compositor_of_desktop("GNOME".to_string()), "GNOME");
    assert_eq!(keybinding_host(&some("hyprland")), Some(BindingHost::Hyprland));
    assert_eq!(keybinding_host(&some("sway")), Some(BindingHost::Sway));
    assert_eq!(keybinding_host(&some("gnome")), None);
    assert_eq!(keybinding_host(&None), None);
}

#[test]
fn a_key_binding_is_appended_once() {
    let dir = some("/c");
    let step = |host, p: &BindingProgress| setup_keybinding(host, p, &dir);
    let hypr = BindingHost::Hyprland;
    let mut p = BindingProgress::new();
    assert!(matches!(step(hypr, &p), BindingStep::LookFor(s) if s == "/c/hypr/hyprland.conf"));
    assert!(
        matches!(step(BindingHost::Sway, &p), BindingStep::LookFor(s) if s == "/c/sway/config")
    );
    p.found = Some(false);
    assert!(matches!(
        step(hypr, &p),
        BindingStep::Done(BindingOutcome::NotFound(s)) if s == "bind = $mainMod, W, exec, whisrs toggle"
    ));
    p.found = Some(true);
    assert!(matches!(step(hypr, &p), BindingStep::Read(_)));
    p.read = true;
    p.contents = some("bind = X, exec, whisrs toggle\n");
    assert!(matches!(step(hypr, &p), BindingStep::Done(BindingOutcome::AlreadyBound)));
    p.contents = some("# nothing here\n");
    assert!(matches!(step(hypr, &p), BindingStep::FindProgram));
    p.program = some("/usr/bin/whisrs");
    assert!(matches!(step(hypr, &p), BindingStep::AskUser));
    p.wanted = Some(false);
    assert!(matches!(
        step(BindingHost::Sway, &p),
        BindingStep::Done(BindingOutcome::Declined(s)) if s == "bindsym $mod+w exec /usr/bin/whisrs toggle"
    ));
    p.wanted = Some(true);
    match step(hypr, &p) {
        BindingStep::Append(path, text) => {
            assert_eq!(path, "/c/hypr/hyprland.conf");
            assert_eq!(
                text,
                "\n# whisrs — voice-to-text dictation\n\
                 bind = $mainMod, W, exec, /usr/bin/whisrs toggle\n"
            );
            // What was appended is recognized the next time.
            let mut again = p.clone();
            again.contents = Some(text);
            assert!(matches!(
                step(hypr, &again),
                BindingStep::Done(BindingOutcome::AlreadyBound)
            ));
        }
        other => panic!("{other:?}"),
    }
    p.appended = Some(true);
    assert!(matches!(step(hypr, &p), BindingStep::Done(BindingOutcome::Added(true))));
}

#[test]
fn the_extension_is_copied_and_enabled() {
    let dir = some("/d");
    let step = |p: &ExtensionProgress| offer_install_gnome_extension(p, &dir);
    let uuid = "whisrs-overlay@eresende.github";
    let mut p = ExtensionProgress::new();
    assert!(
        matches!(step(&p), ExtensionStep::FindSource(s) if s == format!("gnome-shell-extension/{uuid}"))
    );
    p.source_searched = true;
    assert!(
        matches!(step(&p), ExtensionStep::LookFor(s) if s == format!("/d/gnome-shell/extensions/{uuid}"))
    );
    p.installed = Some(true);
    assert!(matches!(step(&p), ExtensionStep::Done(ExtensionOutcome::AlreadyInstalled)));
    p.installed = Some(false);
    assert!(matches!(step(&p), ExtensionStep::AskUser));
    p.wanted = Some(false);
    assert!(matches!(step(&p), ExtensionStep::Done(ExtensionOutcome::Declined)));
    p.wanted = Some(true);
    assert!(matches!(step(&p), ExtensionStep::Done(ExtensionOutcome::NoSource)));
    p.source = some("/src/ext");
    assert!(matches!(step(&p), ExtensionStep::MakeDir(s) if s == "/d/gnome-shell/extensions"));
    p.dir_made = Some(true);
    assert!(
        matches!(step(&p), ExtensionStep::Copy(a, b) if a == "/src/ext" && b == "/d/gnome-shell/extensions")
    );
    p.copied = Some(false);
    assert!(matches!(step(&p), ExtensionStep::Done(ExtensionOutcome::NotCopied)));
    p.copied = Some(true);
    assert!(matches!(step(&p), ExtensionStep::Enable));
    p.enabled = Some(true);
    assert!(matches!(step(&p), ExtensionStep::Done(ExtensionOutcome::Installed(true))));
    p.dir_made = Some(false);
    assert!(matches!(step(&p), ExtensionStep::Done(ExtensionOutcome::NoDirectory)));
}
