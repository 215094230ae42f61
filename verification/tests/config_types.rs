use whisrs::config::document::{TomlValue, ValueEntry};
use whisrs::config::types::{
    config_path, default_asr_sidecar_model, default_asr_sidecar_url, default_audio_feedback_volume,
    default_deepgram_model, default_groq_model, default_key_delay_ms,
    default_local_whisper_segmentation, default_openai_compatible_realtime_model,
    default_openai_compatible_realtime_profile, default_openai_compatible_realtime_turn_detection,
    default_openai_model, default_overlay_height, default_overlay_theme, default_overlay_width,
    default_phrase_silence_ms, parse_hex_color, AsrSidecarConfig, Config, ConfigWarning,
    DeepgramConfig, GeneralConfig, GroqConfig, HotkeyConfig, InjectorBackend, InputConfig,
    LlmCommandConfig, LlmConfig, LocalParakeetConfig, LocalVoskConfig, LocalWhisperConfig,
    OpenAiCompatibleRealtimeConfig, OpenAiConfig, OverlayConfig, TtsConfig, WhisrsError,
};
use whisrs::config::unknown_keys::{unknown_config_keys, unknown_keys};
use whisrs::config::validate::{Hotkey, HotkeyReading, Surroundings};

fn entry(key: &str, value: TomlValue) -> ValueEntry {
    ValueEntry {
        key: key.to_string(),
        value,
    }
}

fn text(key: &str) -> ValueEntry {
    entry(key, TomlValue::Text(String::new()))
}

fn flag(key: &str) -> ValueEntry {
    entry(key, TomlValue::Boolean(false))
}

fn section(key: &str, entries: Vec<ValueEntry>) -> ValueEntry {
    entry(key, TomlValue::Inline(entries))
}

fn command(table: &toml::Value) -> Option<TomlValue> {
    for key in ["name", "hotkey", "instruction"] {
        table.get(key)?.as_str()?;
    }
    let mut keys = vec![text("name"), text("hotkey")];
    if table.get("set_hotkey").is_some() {
        keys.push(text("set_hotkey"));
    }
    keys.push(text("instruction"));
    Some(TomlValue::Inline(keys))
}

/// The keys of the configuration that a text reads as: every section that
/// there always is, the optional ones that the text has, and of each all keys
/// that have a value. Nothing where a key is missing that has no default.
fn known(contents: &str) -> Option<Vec<ValueEntry>> {
    let document = contents.parse::<toml::Table>().ok()?;
    let mut keys = vec![
        section(
            "general",
            vec![
                text("backend"),
                text("language"),
                entry("silence_timeout_ms", TomlValue::Integer(2000)),
                flag("notify"),
                flag("remove_filler_words"),
                entry("filler_words", TomlValue::Array(Vec::new())),
                flag("audio_feedback"),
                entry("audio_feedback_volume", TomlValue::Float(0.5f64.to_bits())),
                entry("vocabulary", TomlValue::Array(Vec::new())),
                flag("tray"),
                flag("overlay"),
            ],
        ),
        section("audio", vec![text("device")]),
        section(
            "input",
            vec![
                entry("key_delay_ms", TomlValue::Integer(2)),
                text("backend"),
                flag("paste"),
                flag("clipboard_fallback"),
                flag("clipboard_only"),
            ],
        ),
    ];
    if document.contains_key("deepgram") {
        keys.push(section("deepgram", vec![text("api_key"), text("model")]));
    }
    let commands = match document.get("llm_commands") {
        Some(list) => list.as_array()?.iter().map(command).collect::<Option<_>>()?,
        None => Vec::new(),
    };
    keys.push(entry("llm_commands", TomlValue::Array(commands)));
    Some(keys)
}

fn unknown(contents: &str) -> Vec<String> {
    unknown_config_keys(contents, &known(contents))
}

#[test]
fn text_that_is_no_configuration_reports_nothing() {
    // The entry lacks its instruction.
    let unknown = unknown("bogus = 1\n[[llm_commands]]\nname = \"x\"\nhotkey = \"Super+T\"\n");
    assert!(unknown.is_empty());
}

/// How a hotkey is read: modifiers in any order, under any of their names,
/// and one key.
fn read_hotkey(spec: &str) -> Result<Hotkey, String> {
    let mut modifiers: Vec<u16> = Vec::new();
    let mut trigger = None;
    for part in spec.split('+') {
        let part = part.trim().to_lowercase();
        match part.as_str() {
            "super" | "meta" => modifiers.push(125),
            "shift" => modifiers.push(42),
            "alt" => modifiers.push(56),
            "ctrl" => modifiers.push(29),
            "escape" => trigger = Some(1),
            key if key.len() == 1 && key.is_ascii() => {
                trigger = Some(1000 + u16::from(key.as_bytes()[0]))
            }
            other => return Err(format!("unknown key: {other}")),
        }
    }
    match trigger {
        Some(trigger) => Ok(Hotkey { modifiers, trigger }),
        None => Err("no key".to_string()),
    }
}

fn surroundings(config: &Config) -> Surroundings {
    let realtime = config.openai_compatible_realtime.as_ref();
    Surroundings {
        deepgram_env_key: false,
        groq_env_key: false,
        openai_env_key: false,
        data_dir: Some("/home/u/.local/share".to_string()),
        model_exists: false,
        profile_error: realtime
            .filter(|r| r.profile != "lemonade")
            .map(|r| format!("unknown profile '{}'", r.profile)),
        turn_detection_error: realtime
            .filter(|r| r.turn_detection != "server-vad" && r.turn_detection != "manual-commit")
            .map(|r| format!("unknown mode '{}'", r.turn_detection)),
        hotkeys: config
            .hotkey_specs()
            .into_iter()
            .map(|spec| HotkeyReading {
                reading: read_hotkey(&spec),
                spec,
            })
            .collect(),
    }
}

fn validate(config: &Config) -> Result<Vec<ConfigWarning>, WhisrsError> {
    config.validate(&surroundings(config))
}

#[test]
fn unknown_top_level_key_is_reported() {
    let unknown = unknown("bogus = 1\n[general]\nbackend = \"groq\"\n");
    assert_eq!(unknown, vec!["bogus"]);
}

#[test]
fn unknown_nested_key_reports_full_path() {
    // `past` is a typo for `paste`.
    let unknown = unknown("[input]\npast = true\n");
    assert_eq!(unknown, vec!["input.past"]);
}

#[test]
fn unknown_key_in_option_section_is_reported() {
    let unknown = unknown("[deepgram]\napi_key = \"k\"\nbogus = 2\n");
    assert_eq!(unknown, vec!["deepgram.bogus"]);
}

#[test]
fn section_with_only_unknown_keys_reports_leaves() {
    let unknown = unknown("[deepgram]\nbogus = 1\n");
    assert_eq!(unknown, vec!["deepgram.bogus"]);
}

#[test]
fn unknown_key_in_llm_command_array_element_is_reported() {
    let unknown = unknown(
        "[[llm_commands]]\nname = \"x\"\nhotkey = \"Super+T\"\ninstruction = \"y\"\nbogus = 1\n",
    );
    assert_eq!(unknown, vec!["llm_commands[0].bogus"]);
}

#[test]
fn valid_config_reports_nothing() {
    let unknown = unknown("[general]\nbackend = \"groq\"\n[input]\npaste = true\n");
    assert!(unknown.is_empty());
}

#[test]
fn invalid_toml_reports_nothing() {
    let unknown = unknown("not [valid toml");
    assert!(unknown.is_empty());
}

#[test]
fn config_validate_unknown_backend() {
    let config = Config {
        general: GeneralConfig {
            backend: "nonexistent".to_string(),
            ..Default::default()
        },
        audio: Default::default(),
        input: Default::default(),
        deepgram: None,
        groq: None,
        openai: None,
        local_whisper: None,
        local_vosk: None,
        local_parakeet: None,
        asr_sidecar: None,
        openai_compatible_realtime: None,
        llm: None,
        tts: None,
        hotkeys: None,
        llm_commands: Vec::new(),
        overlay: None,
        hooks: None,
    };
    let err = validate(&config).unwrap_err();
    assert!(err.message().contains("Unknown backend"));
    assert!(err.message().contains("openai-compatible-realtime"));
}

#[test]
fn config_validate_groq_no_key() {
    let config = Config {
        general: GeneralConfig {
            backend: "groq".to_string(),
            ..Default::default()
        },
        audio: Default::default(),
        input: Default::default(),
        deepgram: None,
        groq: None,
        openai: None,
        local_whisper: None,
        local_vosk: None,
        local_parakeet: None,
        asr_sidecar: None,
        openai_compatible_realtime: None,
        llm: None,
        tts: None,
        hotkeys: None,
        llm_commands: Vec::new(),
        overlay: None,
        hooks: None,
    };
    let err = validate(&config).unwrap_err();
    assert!(err.message().contains("no API key"));
}

#[test]
fn config_validate_groq_with_key() {
    let config = Config {
        general: GeneralConfig {
            backend: "groq".to_string(),
            ..Default::default()
        },
        audio: Default::default(),
        input: Default::default(),
        deepgram: None,
        groq: Some(GroqConfig {
            api_key: "test-key".to_string(),
            model: "whisper-large-v3-turbo".to_string(),
        }),
        openai: None,
        local_whisper: None,
        local_vosk: None,
        local_parakeet: None,
        asr_sidecar: None,
        openai_compatible_realtime: None,
        llm: None,
        tts: None,
        hotkeys: None,
        llm_commands: Vec::new(),
        overlay: None,
        hooks: None,
    };
    let result = validate(&config);
    assert!(result.is_ok());
}

#[test]
fn config_validate_paste_with_non_streaming_backend_no_warning() {
    let config = Config {
        general: GeneralConfig {
            backend: "groq".to_string(),
            ..Default::default()
        },
        audio: Default::default(),
        input: InputConfig {
            paste: true,
            ..Default::default()
        },
        deepgram: None,
        groq: Some(GroqConfig {
            api_key: "test-key".to_string(),
            model: "whisper-large-v3-turbo".to_string(),
        }),
        openai: None,
        local_whisper: None,
        local_vosk: None,
        local_parakeet: None,
        asr_sidecar: None,
        openai_compatible_realtime: None,
        llm: None,
        tts: None,
        hotkeys: None,
        llm_commands: Vec::new(),
        overlay: None,
        hooks: None,
    };
    let warnings = validate(&config).unwrap();
    assert!(
        warnings.iter().all(|w| !w.message.contains("paste")),
        "groq is not a streaming backend; paste should not warn: {warnings:?}"
    );
}

#[test]
fn config_validate_paste_with_streaming_backend_warns() {
    for backend in ["deepgram-streaming", "openai-realtime", "local-whisper"] {
        let config = Config {
            general: GeneralConfig {
                backend: backend.to_string(),
                ..Default::default()
            },
            audio: Default::default(),
            input: InputConfig {
                paste: true,
                ..Default::default()
            },
            deepgram: Some(DeepgramConfig {
                api_key: "test-key".to_string(),
                model: default_deepgram_model(),
            }),
            groq: None,
            openai: Some(OpenAiConfig {
                api_key: "test-key".to_string(),
                model: default_openai_model(),
            }),
            local_whisper: None,
            local_vosk: None,
            local_parakeet: None,
            asr_sidecar: None,
            openai_compatible_realtime: None,
            llm: None,
            tts: None,
            hotkeys: None,
            llm_commands: Vec::new(),
            overlay: None,
            hooks: None,
        };
        let warnings = validate(&config).unwrap();
        let warning = warnings
            .iter()
            .find(|w| w.message.contains("[input] paste = true"))
            .unwrap_or_else(|| {
                panic!(
                    "backend {backend} streams and ignores paste for dictation; \
                     expected a warning, got: {warnings:?}"
                )
            });
        assert!(
            warning.message.contains("does not apply to dictation"),
            "the warning must scope itself to dictation, not claim paste is a global \
             no-op: {}",
            warning.message
        );
        assert!(
            warning.message.contains("Command mode"),
            "the warning must say command mode still pastes: {}",
            warning.message
        );
    }
}

#[test]
fn config_validate_asr_sidecar_with_url() {
    let config = Config {
        general: GeneralConfig {
            backend: "asr-sidecar".to_string(),
            ..Default::default()
        },
        audio: Default::default(),
        input: Default::default(),
        deepgram: None,
        groq: None,
        openai: None,
        local_whisper: None,
        local_vosk: None,
        local_parakeet: None,
        asr_sidecar: Some(AsrSidecarConfig {
            url: "http://127.0.0.1:8765/transcribe".to_string(),
            model: "microsoft/VibeVoice-ASR-HF".to_string(),
            api_key: None,
        }),
        openai_compatible_realtime: None,
        llm: None,
        tts: None,
        hotkeys: None,
        llm_commands: Vec::new(),
        overlay: None,
        hooks: None,
    };

    assert!(validate(&config).is_ok());
}

#[test]
fn config_validate_zero_silence_timeout() {
    let config = Config {
        general: GeneralConfig {
            backend: "groq".to_string(),
            silence_timeout_ms: 0,
            ..Default::default()
        },
        audio: Default::default(),
        input: Default::default(),
        deepgram: None,
        groq: Some(GroqConfig {
            api_key: "test-key".to_string(),
            model: "whisper-large-v3-turbo".to_string(),
        }),
        openai: None,
        local_whisper: None,
        local_vosk: None,
        local_parakeet: None,
        asr_sidecar: None,
        openai_compatible_realtime: None,
        llm: None,
        tts: None,
        hotkeys: None,
        llm_commands: Vec::new(),
        overlay: None,
        hooks: None,
    };
    let warnings = validate(&config).unwrap();
    assert!(warnings
        .iter()
        .any(|w| w.message.contains("silence_timeout_ms")));
}

#[test]
fn config_validate_openai_compatible_realtime_with_valid_config() {
    let config = Config {
        general: GeneralConfig {
            backend: "openai-compatible-realtime".to_string(),
            ..Default::default()
        },
        audio: Default::default(),
        input: Default::default(),
        deepgram: None,
        groq: None,
        openai: None,
        local_whisper: None,
        local_vosk: None,
        local_parakeet: None,
        asr_sidecar: None,
        openai_compatible_realtime: Some(OpenAiCompatibleRealtimeConfig {
            url: "ws://localhost:1234/realtime".to_string(),
            model: "Whisper-Tiny".to_string(),
            profile: "lemonade".to_string(),
            turn_detection: "server-vad".to_string(),
            api_key: None,
        }),
        llm: None,
        hotkeys: None,
        llm_commands: Vec::new(),
        overlay: None,
        hooks: None,
        tts: None,
    };

    assert!(validate(&config).is_ok());
}

#[test]
fn config_validate_openai_compatible_realtime_rejects_missing_url() {
    let config = Config {
        general: GeneralConfig {
            backend: "openai-compatible-realtime".to_string(),
            ..Default::default()
        },
        audio: Default::default(),
        input: Default::default(),
        deepgram: None,
        groq: None,
        openai: None,
        local_whisper: None,
        local_vosk: None,
        local_parakeet: None,
        asr_sidecar: None,
        openai_compatible_realtime: Some(OpenAiCompatibleRealtimeConfig {
            url: " ".to_string(),
            model: "Whisper-Tiny".to_string(),
            profile: "lemonade".to_string(),
            turn_detection: "server-vad".to_string(),
            api_key: None,
        }),
        llm: None,
        hotkeys: None,
        llm_commands: Vec::new(),
        overlay: None,
        hooks: None,
        tts: None,
    };

    let err = validate(&config).unwrap_err();
    assert!(err.message().contains("WebSocket URL"));
}

#[test]
fn config_validate_openai_compatible_realtime_rejects_non_websocket_url() {
    let config = Config {
        general: GeneralConfig {
            backend: "openai-compatible-realtime".to_string(),
            ..Default::default()
        },
        audio: Default::default(),
        input: Default::default(),
        deepgram: None,
        groq: None,
        openai: None,
        local_whisper: None,
        local_vosk: None,
        local_parakeet: None,
        asr_sidecar: None,
        openai_compatible_realtime: Some(OpenAiCompatibleRealtimeConfig {
            url: "http://localhost:1234/realtime".to_string(),
            model: "Whisper-Tiny".to_string(),
            profile: "lemonade".to_string(),
            turn_detection: "server-vad".to_string(),
            api_key: None,
        }),
        llm: None,
        hotkeys: None,
        llm_commands: Vec::new(),
        overlay: None,
        hooks: None,
        tts: None,
    };

    let err = validate(&config).unwrap_err();
    assert!(err.message().contains("ws:// or wss://"));
}

#[test]
fn config_validate_openai_compatible_realtime_rejects_unknown_profile() {
    let config = Config {
        general: GeneralConfig {
            backend: "openai-compatible-realtime".to_string(),
            ..Default::default()
        },
        audio: Default::default(),
        input: Default::default(),
        deepgram: None,
        groq: None,
        openai: None,
        local_whisper: None,
        local_vosk: None,
        local_parakeet: None,
        asr_sidecar: None,
        openai_compatible_realtime: Some(OpenAiCompatibleRealtimeConfig {
            url: "ws://localhost:1234/realtime".to_string(),
            model: "Whisper-Tiny".to_string(),
            profile: "bogus".to_string(),
            turn_detection: "server-vad".to_string(),
            api_key: None,
        }),
        llm: None,
        hotkeys: None,
        llm_commands: Vec::new(),
        overlay: None,
        hooks: None,
        tts: None,
    };

    let err = validate(&config).unwrap_err();
    assert!(err.message().contains("profile is invalid"));
}

#[test]
fn config_validate_openai_compatible_realtime_rejects_unsupported_turn_detection() {
    let config = Config {
        general: GeneralConfig {
            backend: "openai-compatible-realtime".to_string(),
            ..Default::default()
        },
        audio: Default::default(),
        input: Default::default(),
        deepgram: None,
        groq: None,
        openai: None,
        local_whisper: None,
        local_vosk: None,
        local_parakeet: None,
        asr_sidecar: None,
        openai_compatible_realtime: Some(OpenAiCompatibleRealtimeConfig {
            url: "ws://localhost:1234/realtime".to_string(),
            model: "Whisper-Tiny".to_string(),
            profile: "lemonade".to_string(),
            turn_detection: "bogus".to_string(),
            api_key: None,
        }),
        llm: None,
        hotkeys: None,
        llm_commands: Vec::new(),
        overlay: None,
        hooks: None,
        tts: None,
    };

    let err = validate(&config).unwrap_err();
    assert!(err.message().contains("turn detection is invalid"));
}

#[test]
fn has_any_backend_configured_counts_openai_compatible_realtime_url() {
    let config = Config {
        general: Default::default(),
        audio: Default::default(),
        input: Default::default(),
        deepgram: None,
        groq: None,
        openai: None,
        local_whisper: None,
        local_vosk: None,
        local_parakeet: None,
        asr_sidecar: None,
        openai_compatible_realtime: Some(OpenAiCompatibleRealtimeConfig {
            url: "ws://localhost:1234/realtime".to_string(),
            model: "Whisper-Tiny".to_string(),
            profile: "lemonade".to_string(),
            turn_detection: "server-vad".to_string(),
            api_key: None,
        }),
        llm: None,
        hotkeys: None,
        llm_commands: Vec::new(),
        overlay: None,
        hooks: None,
        tts: None,
    };

    assert!(config.has_any_backend_configured(&surroundings(&config)));
}

#[test]
fn config_validate_warns_llm_commands_without_llm_section() {
    let mut config = Config {
        general: GeneralConfig {
            backend: "groq".to_string(),
            ..Default::default()
        },
        audio: Default::default(),
        input: Default::default(),
        deepgram: None,
        groq: Some(GroqConfig {
            api_key: "test-key".to_string(),
            model: "whisper-large-v3-turbo".to_string(),
        }),
        openai: None,
        local_whisper: None,
        local_vosk: None,
        local_parakeet: None,
        asr_sidecar: None,
        openai_compatible_realtime: None,
        llm: None,
        hotkeys: None,
        llm_commands: Vec::new(),
        overlay: None,
        hooks: None,
        tts: None,
    };
    config.llm_commands.push(LlmCommandConfig {
        name: "translate-de".to_string(),
        hotkey: "Super+Shift+T".to_string(),
        set_hotkey: None,
        instruction: "Translate to German.".to_string(),
    });

    let warnings = validate(&config).unwrap();
    assert!(warnings
        .iter()
        .any(|w| w.message.contains("no [llm] section")));
}

#[test]
fn config_validate_rejects_duplicate_llm_command_names() {
    let mut config = Config {
        general: GeneralConfig {
            backend: "groq".to_string(),
            ..Default::default()
        },
        audio: Default::default(),
        input: Default::default(),
        deepgram: None,
        groq: Some(GroqConfig {
            api_key: "test-key".to_string(),
            model: "whisper-large-v3-turbo".to_string(),
        }),
        openai: None,
        local_whisper: None,
        local_vosk: None,
        local_parakeet: None,
        asr_sidecar: None,
        openai_compatible_realtime: None,
        llm: Some(LlmConfig::default()),
        hotkeys: None,
        llm_commands: Vec::new(),
        overlay: None,
        hooks: None,
        tts: None,
    };
    for _ in 0..2 {
        config.llm_commands.push(LlmCommandConfig {
            name: "dup".to_string(),
            hotkey: "Super+Shift+T".to_string(),
            set_hotkey: None,
            instruction: "Translate to German.".to_string(),
        });
    }

    let warnings = validate(&config).unwrap();
    assert!(warnings
        .iter()
        .any(|w| w.message.contains("duplicate name")));
}

#[test]
fn config_validate_rejects_invalid_llm_command_hotkey() {
    let mut config = Config {
        general: GeneralConfig {
            backend: "groq".to_string(),
            ..Default::default()
        },
        audio: Default::default(),
        input: Default::default(),
        deepgram: None,
        groq: Some(GroqConfig {
            api_key: "test-key".to_string(),
            model: "whisper-large-v3-turbo".to_string(),
        }),
        openai: None,
        local_whisper: None,
        local_vosk: None,
        local_parakeet: None,
        asr_sidecar: None,
        openai_compatible_realtime: None,
        llm: Some(LlmConfig::default()),
        hotkeys: None,
        llm_commands: Vec::new(),
        overlay: None,
        hooks: None,
        tts: None,
    };
    config.llm_commands.push(LlmCommandConfig {
        name: "translate-de".to_string(),
        hotkey: "NotAKey".to_string(),
        set_hotkey: None,
        instruction: "Translate to German.".to_string(),
    });

    let warnings = validate(&config).unwrap();
    assert!(warnings
        .iter()
        .any(|w| w.message.contains("invalid hotkey")));
}

#[test]
fn config_validate_warns_set_hotkey_equal_to_hotkey() {
    let mut config = Config {
        general: GeneralConfig {
            backend: "groq".to_string(),
            ..Default::default()
        },
        audio: Default::default(),
        input: Default::default(),
        deepgram: None,
        groq: Some(GroqConfig {
            api_key: "test-key".to_string(),
            model: "whisper-large-v3-turbo".to_string(),
        }),
        openai: None,
        local_whisper: None,
        local_vosk: None,
        local_parakeet: None,
        asr_sidecar: None,
        openai_compatible_realtime: None,
        llm: Some(LlmConfig::default()),
        hotkeys: None,
        llm_commands: Vec::new(),
        overlay: None,
        hooks: None,
        tts: None,
    };
    config.llm_commands.push(LlmCommandConfig {
        name: "translate-de".to_string(),
        hotkey: "Super+Shift+T".to_string(),
        set_hotkey: Some("Super+Shift+T".to_string()),
        instruction: "Translate to German.".to_string(),
    });

    let warnings = validate(&config).unwrap();
    assert!(warnings
        .iter()
        .any(|w| w.message.contains("set_hotkey equal to hotkey")));
}

/// Minimal valid config for the given backend, with every backend
/// section populated so validate()'s hard checks pass. Tests mutate the
/// fields they exercise.
fn validatable_config(backend: &str) -> Config {
    Config {
        general: GeneralConfig {
            backend: backend.to_string(),
            ..Default::default()
        },
        audio: Default::default(),
        input: Default::default(),
        deepgram: Some(DeepgramConfig {
            api_key: "test-key".to_string(),
            model: default_deepgram_model(),
        }),
        groq: Some(GroqConfig {
            api_key: "test-key".to_string(),
            model: "whisper-large-v3-turbo".to_string(),
        }),
        openai: Some(OpenAiConfig {
            api_key: "test-key".to_string(),
            model: default_openai_model(),
        }),
        local_whisper: None,
        local_vosk: None,
        local_parakeet: None,
        asr_sidecar: None,
        openai_compatible_realtime: Some(OpenAiCompatibleRealtimeConfig {
            url: "ws://localhost:1234/realtime".to_string(),
            model: "Whisper-Tiny".to_string(),
            profile: "lemonade".to_string(),
            turn_detection: "server-vad".to_string(),
            api_key: None,
        }),
        llm: Some(LlmConfig::default()),
        hotkeys: None,
        llm_commands: Vec::new(),
        overlay: None,
        hooks: None,
        tts: None,
    }
}

fn llm_command(name: &str, hotkey: &str) -> LlmCommandConfig {
    LlmCommandConfig {
        name: name.to_string(),
        hotkey: hotkey.to_string(),
        set_hotkey: None,
        instruction: "Translate to German.".to_string(),
    }
}

#[test]
fn config_validate_warns_hotkey_collision_across_sections() {
    let mut config = validatable_config("groq");
    config.hotkeys = Some(HotkeyConfig {
        toggle: Some("Super+Shift+T".to_string()),
        cancel: None,
        command: None,
        speak: None,
    });
    config
        .llm_commands
        .push(llm_command("german", "Super+Shift+T"));

    let warnings = validate(&config).unwrap();
    let warning = warnings
        .iter()
        .find(|w| w.message.contains("duplicate hotkey binding"))
        .unwrap_or_else(|| {
            panic!("hotkeys.toggle and llm_commands share a combo; expected a warning, got: {warnings:?}")
        });
    assert!(
        warning.message.contains("[hotkeys] toggle"),
        "the warning must name the [hotkeys] side: {}",
        warning.message
    );
    assert!(
        warning.message.contains("llm_commands 'german' hotkey"),
        "the warning must name the llm_commands side: {}",
        warning.message
    );
}

#[test]
fn config_validate_warns_hotkey_collision_between_llm_commands_normalized() {
    // Different spelling (case + modifier order) of the same combo must
    // still collide: the listener matches parsed bindings, not strings.
    let mut config = validatable_config("groq");
    config
        .llm_commands
        .push(llm_command("german", "Super+Shift+T"));
    config
        .llm_commands
        .push(llm_command("summarize", "shift+super+t"));

    let warnings = validate(&config).unwrap();
    let warning = warnings
        .iter()
        .find(|w| w.message.contains("duplicate hotkey binding"))
        .unwrap_or_else(|| {
            panic!("both entries bind the same combo; expected a warning, got: {warnings:?}")
        });
    assert!(
        warning.message.contains("llm_commands 'german' hotkey")
            && warning.message.contains("llm_commands 'summarize' hotkey"),
        "the warning must name both entries: {}",
        warning.message
    );
}

#[test]
fn config_validate_warns_duplicate_bindings_within_hotkeys_section() {
    // "Meta" is an alias for "Super", so these are the same binding.
    let mut config = validatable_config("groq");
    config.hotkeys = Some(HotkeyConfig {
        toggle: Some("Super+D".to_string()),
        cancel: None,
        command: None,
        speak: Some("Meta+D".to_string()),
    });

    let warnings = validate(&config).unwrap();
    let warning = warnings
        .iter()
        .find(|w| w.message.contains("duplicate hotkey binding"))
        .unwrap_or_else(|| {
            panic!(
                "toggle and speak bind the same combo; expected a warning, got: {warnings:?}"
            )
        });
    assert!(
        warning.message.contains("[hotkeys] toggle")
            && warning.message.contains("[hotkeys] speak"),
        "the warning must name both fields: {}",
        warning.message
    );
}

#[test]
fn config_validate_no_collision_warning_for_distinct_bindings() {
    let mut config = validatable_config("groq");
    config.hotkeys = Some(HotkeyConfig {
        toggle: Some("Super+Shift+D".to_string()),
        cancel: Some("Super+Shift+Escape".to_string()),
        command: Some("Super+Shift+C".to_string()),
        speak: Some("Super+Shift+R".to_string()),
    });
    config
        .llm_commands
        .push(llm_command("german", "Super+Shift+T"));
    config
        .llm_commands
        .push(llm_command("summarize", "Super+Shift+S"));

    let warnings = validate(&config).unwrap();
    assert!(
        warnings
            .iter()
            .all(|w| !w.message.contains("duplicate hotkey binding")),
        "all bindings are distinct; no collision warning expected: {warnings:?}"
    );
}

#[test]
fn config_validate_no_collision_warning_for_entry_own_set_hotkey() {
    let mut config = validatable_config("groq");
    let mut entry = llm_command("german", "Super+Shift+U");
    entry.set_hotkey = Some("Super+Shift+Alt+U".to_string());
    config.llm_commands.push(entry);

    let warnings = validate(&config).unwrap();
    assert!(
        warnings
            .iter()
            .all(|w| !w.message.contains("duplicate hotkey binding")),
        "an entry's own distinct hotkey/set_hotkey pair is not a collision: {warnings:?}"
    );
}

#[test]
fn config_validate_set_hotkey_equal_to_hotkey_not_double_reported() {
    // Textually equal set_hotkey already has a dedicated warning; the
    // generic collision pass must not report the same mistake twice.
    let mut config = validatable_config("groq");
    let mut entry = llm_command("german", "Super+Shift+T");
    entry.set_hotkey = Some("Super+Shift+T".to_string());
    config.llm_commands.push(entry);

    let warnings = validate(&config).unwrap();
    assert!(
        warnings
            .iter()
            .any(|w| w.message.contains("set_hotkey equal to hotkey")),
        "the dedicated warning must still fire: {warnings:?}"
    );
    assert!(
        warnings
            .iter()
            .all(|w| !w.message.contains("duplicate hotkey binding")),
        "the generic collision warning would be redundant here: {warnings:?}"
    );
}

#[test]
fn config_validate_empty_llm_command_hotkeys_do_not_collide() {
    let mut config = validatable_config("groq");
    config.llm_commands.push(llm_command("german", ""));
    config.llm_commands.push(llm_command("summarize", ""));

    let warnings = validate(&config).unwrap();
    assert!(
        warnings
            .iter()
            .all(|w| !w.message.contains("duplicate hotkey binding")),
        "empty hotkeys never fire and must not collide with each other: {warnings:?}"
    );
}

#[test]
fn config_validate_warns_llm_commands_with_streaming_backend() {
    for backend in [
        "deepgram-streaming",
        "openai-realtime",
        "openai-compatible-realtime",
    ] {
        let mut config = validatable_config(backend);
        config
            .llm_commands
            .push(llm_command("german", "Super+Shift+T"));

        let warnings = validate(&config).unwrap();
        let warning = warnings
            .iter()
            .find(|w| w.message.contains("llm_commands run one-shot"))
            .unwrap_or_else(|| {
                panic!(
                    "backend {backend} streams but llm_commands transcribe in one batch \
                     call; expected a warning, got: {warnings:?}"
                )
            });
        assert!(
            warning
                .message
                .contains(&format!("backend = \"{backend}\"")),
            "the warning must name the backend: {}",
            warning.message
        );
        assert!(
            warning.message.contains("still work"),
            "the warning must say llm_commands degrade, not fail: {}",
            warning.message
        );
    }
}

#[test]
fn config_validate_no_streaming_warning_for_batch_backend_llm_commands() {
    // local-whisper is deliberately absent from the streaming list here
    // (unlike the paste warning): its transcribe() is a real batch path.
    for backend in ["groq", "local-whisper"] {
        let mut config = validatable_config(backend);
        config
            .llm_commands
            .push(llm_command("german", "Super+Shift+T"));

        let warnings = validate(&config).unwrap();
        assert!(
            warnings
                .iter()
                .all(|w| !w.message.contains("llm_commands run one-shot")),
            "backend {backend} has a real batch path; no streaming warning expected: \
             {warnings:?}"
        );
    }
}


#[test]
fn a_key_in_the_environment_is_enough() {
    let mut config = validatable_config("groq");
    config.groq = None;
    let mut around = surroundings(&config);
    assert!(config.validate(&around).is_err());
    around.groq_env_key = true;
    assert!(config.validate(&around).is_ok());

    config.general.backend = "deepgram".to_string();
    config.deepgram = None;
    assert!(config.validate(&around).is_err());
    around.deepgram_env_key = true;
    assert!(config.validate(&around).is_ok());

    config.general.backend = "openai".to_string();
    config.openai = None;
    assert!(config.validate(&around).is_err());
    around.openai_env_key = true;
    assert!(config.validate(&around).is_ok());
}

#[test]
fn every_fatal_problem_has_its_message() {
    let message = |config: &Config| validate(config).unwrap_err().message();

    let mut config = validatable_config("deepgram-streaming");
    config.deepgram = None;
    assert!(message(&config).starts_with("Deepgram backend selected but no API key"));
    config.general.backend = "openai-realtime".to_string();
    config.openai = None;
    assert!(message(&config).starts_with("OpenAI backend selected but no API key"));
    config.general.backend = "asr-sidecar".to_string();
    assert!(message(&config).contains("no sidecar URL"));

    let mut config = validatable_config("openai-compatible-realtime");
    config.openai_compatible_realtime.as_mut().unwrap().url = "ws://[".to_string();
    assert!(message(&config).starts_with("OpenAI-compatible realtime URL is invalid: "));
    config.openai_compatible_realtime.as_mut().unwrap().url = " wss://h/r ".to_string();
    assert!(validate(&config).is_ok());
    config.openai_compatible_realtime.as_mut().unwrap().model = " ".to_string();
    assert!(message(&config).contains("model is empty"));
    config.openai_compatible_realtime = None;
    assert!(message(&config).contains("no config section found"));
    assert!(matches!(
        validate(&config),
        Err(WhisrsError::Config(_))
    ));
}

#[test]
fn a_missing_model_is_a_warning() {
    let mut config = validatable_config("local-whisper");
    config.local_whisper = Some(LocalWhisperConfig::new("/m/base.bin".to_string()));
    assert_eq!(
        config.model_path(&None).as_deref(),
        Some("/m/base.bin")
    );
    let mut around = surroundings(&config);
    let warned = |config: &Config, around: &Surroundings| {
        config
            .validate(around)
            .unwrap()
            .iter()
            .any(|w| w.message.contains("not found"))
    };
    assert!(warned(&config, &around));
    around.model_exists = true;
    assert!(!warned(&config, &around));
    config.general.backend = "groq".to_string();
    around.model_exists = false;
    assert!(!warned(&config, &around));
}

#[test]
fn every_backend_counts_as_configured() {
    let mut empty = validatable_config("groq");
    empty.deepgram = None;
    empty.groq = None;
    empty.openai = None;
    empty.openai_compatible_realtime = None;
    let none = surroundings(&empty);
    assert!(!empty.has_any_backend_configured(&none));

    let mut around = surroundings(&empty);
    around.openai_env_key = true;
    assert!(empty.has_any_backend_configured(&around));

    let mut config = empty.clone();
    config.local_vosk = Some(LocalVoskConfig {
        model_path: String::new(),
    });
    assert!(config.has_any_backend_configured(&none));
    let mut config = empty.clone();
    config.local_parakeet = Some(LocalParakeetConfig {
        model_path: String::new(),
    });
    assert!(config.has_any_backend_configured(&none));
    let mut config = empty.clone();
    config.asr_sidecar = Some(AsrSidecarConfig {
        url: "  ".to_string(),
        model: default_asr_sidecar_model(),
        api_key: None,
    });
    assert!(!config.has_any_backend_configured(&none));
    config.asr_sidecar.as_mut().unwrap().url = default_asr_sidecar_url();
    assert!(config.has_any_backend_configured(&none));
}

#[test]
fn unknown_keys_of_parsed_trees_are_sorted_and_listed_once() {
    let doc = vec![
        section(
            "zeta",
            vec![text("b"), section("inner", vec![text("x")]), text("a")],
        ),
        text("alpha"),
        section("general", vec![text("backend"), text("colour")]),
    ];
    assert_eq!(
        unknown_keys(&doc, &known("").unwrap()),
        ["alpha", "general.colour", "zeta.a", "zeta.b", "zeta.inner.x"]
    );
}

#[test]
fn nothing_is_unknown_without_a_list_of_known_keys() {
    assert!(unknown_config_keys("bogus = 1\n", &None).is_empty());
}

#[test]
fn hex_colors_are_read_in_three_lengths() {
    assert_eq!(parse_hex_color("#fff"), Some([255, 255, 255, 255]));
    assert_eq!(parse_hex_color(" 0a1B2c "), Some([255, 10, 27, 44]));
    assert_eq!(parse_hex_color("#01020380"), Some([128, 1, 2, 3]));
    for bad in [
        "", "#", "#12", "#1234", "#12345", "#ggg", "#gggggg", "#1234567", "#+1+2+3", "#+f+f+f+f",
        "#+++", "#-1-2-3", "é23456", "日本",
    ] {
        assert_eq!(parse_hex_color(bad), None, "{bad:?}");
    }
}

#[test]
fn the_overlay_is_clamped_to_its_documented_range() {
    let mut overlay = OverlayConfig::default();
    assert_eq!(overlay.theme, "ember");
    assert_eq!((overlay.width, overlay.height), (100, 40));
    overlay.width = 10;
    overlay.height = 10;
    assert_eq!((overlay.clamped_width(), overlay.clamped_height()), (90, 28));
    overlay.width = 1000;
    overlay.height = 1000;
    assert_eq!((overlay.clamped_width(), overlay.clamped_height()), (120, 40));
    overlay.width = 111;
    overlay.height = 33;
    assert_eq!((overlay.clamped_width(), overlay.clamped_height()), (111, 33));
}

#[test]
fn the_defaults_are_the_documented_ones() {
    assert_eq!(default_overlay_theme(), "ember");
    assert_eq!(default_overlay_width(), 100);
    assert_eq!(default_overlay_height(), 40);
    assert_eq!(f32::from_bits(default_audio_feedback_volume()), 0.5);
    assert_eq!(default_key_delay_ms(), 2);
    assert_eq!(default_deepgram_model(), "nova-3");
    assert_eq!(default_groq_model(), "whisper-large-v3-turbo");
    assert_eq!(default_openai_model(), "gpt-4o-mini-transcribe");
    assert_eq!(default_local_whisper_segmentation(), "silence");
    assert_eq!(default_phrase_silence_ms(), 400);
    assert_eq!(default_asr_sidecar_url(), "http://127.0.0.1:8765/transcribe");
    assert_eq!(default_asr_sidecar_model(), "microsoft/VibeVoice-ASR-HF");
    assert_eq!(default_openai_compatible_realtime_model(), "Whisper-Tiny");
    assert_eq!(default_openai_compatible_realtime_profile(), "lemonade");
    assert_eq!(
        default_openai_compatible_realtime_turn_detection(),
        "server-vad"
    );
    let general = GeneralConfig::default();
    assert_eq!(general.backend, "groq");
    assert_eq!(general.language, "en");
    assert_eq!(general.silence_timeout_ms, 2000);
    assert!(general.notify && general.tray && !general.overlay);
    let tts = TtsConfig::default();
    assert_eq!((tts.backend.as_str(), tts.response_format.as_str()), ("groq", "wav"));
    assert_eq!(InputConfig::default().backend, InjectorBackend::Auto);
    assert_eq!(InjectorBackend::WaylandVk.name(), "wayland-vk");
}

#[test]
fn the_configuration_lives_below_the_config_directory() {
    assert_eq!(
        config_path(&Some("/home/u/.config".to_string())),
        "/home/u/.config/whisrs/config.toml"
    );
    assert_eq!(config_path(&None), "~/.config/whisrs/config.toml");
}
