//! Showing a configuration without giving its keys away.

use crate::config::types::{
    AsrSidecarConfig, Config, DeepgramConfig, GroqConfig, LlmConfig,
    OpenAiCompatibleRealtimeConfig, OpenAiConfig, TtsConfig,
};
use crate::text::{opt_text, range_of, same_text, to_chars, to_text, trim, trimmed_chars};
use vstd::prelude::*;

verus! {

pub const GREEN: &'static str = "\x1b[32m";

pub const YELLOW: &'static str = "\x1b[33m";

pub const RED: &'static str = "\x1b[31m";

pub const BOLD: &'static str = "\x1b[1m";

pub const DIM: &'static str = "\x1b[2m";

pub const RESET: &'static str = "\x1b[0m";

/// `text` between a terminal style and the end of that style.
pub open spec fn in_style(style: Seq<char>, text: Seq<char>) -> Seq<char> {
    style + text + RESET@
}

/// `text` between a terminal style and the end of that style.
pub fn styled(style: &str, text: &str) -> (r: String)
    ensures
        r@ == in_style(style@, text@),
{
    let mut r = style.to_owned();
    r.push_str(text);
    r.push_str(RESET);
    r
}

/// A key for display: four stars, and the last four characters of a key that
/// is longer than that.
pub open spec fn masked_key(key: Seq<char>) -> Seq<char> {
    if key.len() <= 4 {
        "****"@
    } else {
        "****"@ + key.skip(key.len() - 4)
    }
}

/// Mask an API key for display, showing only the last 4 characters.
pub fn mask_api_key(key: &str) -> (r: String)
    ensures
        r@ == masked_key(key@),
{
    let v = to_chars(key);
    let mut r = "****".to_owned();
    if v.len() > 4 {
        let tail = to_text(&range_of(&v, v.len() - 4, v.len()));
        assert(tail@ =~= key@.skip(key@.len() - 4));
        r.push_str(tail.as_str());
    }
    r
}

/// A masked key tells nothing of the key but its last four characters, and of
/// a key of at most four characters nothing at all.
pub proof fn mask_shows_only_the_tail(a: Seq<char>, b: Seq<char>)
    ensures
        a.len() <= 4 && b.len() <= 4 ==> masked_key(a) == masked_key(b),
        a.len() > 4 && b.len() > 4 && a.skip(a.len() - 4) == b.skip(b.len() - 4) ==> masked_key(a)
            == masked_key(b),
{
}

fn mask_optional(key: Option<String>) -> (r: Option<String>)
    ensures
        opt_text(r) == opt_masked(opt_text(key)),
{
    match key {
        Some(k) => Some(mask_api_key(k.as_str())),
        None => None,
    }
}

/// An optional key for display.
pub open spec fn opt_masked(key: Option<Seq<char>>) -> Option<Seq<char>> {
    match key {
        Some(k) => Some(masked_key(k)),
        None => None,
    }
}

/// Whether `m` is `c` with the key of every section that has one masked.
pub open spec fn is_masked_copy(m: Config, c: Config) -> bool {
    &&& m == Config {
        deepgram: m.deepgram,
        groq: m.groq,
        openai: m.openai,
        openai_compatible_realtime: m.openai_compatible_realtime,
        asr_sidecar: m.asr_sidecar,
        llm: m.llm,
        tts: m.tts,
        ..c
    }
    &&& match (m.deepgram, c.deepgram) {
        (Some(x), Some(y)) => x.api_key@ == masked_key(y.api_key@) && x.model == y.model,
        (x, y) => x is None && y is None,
    }
    &&& match (m.groq, c.groq) {
        (Some(x), Some(y)) => x.api_key@ == masked_key(y.api_key@) && x.model == y.model,
        (x, y) => x is None && y is None,
    }
    &&& match (m.openai, c.openai) {
        (Some(x), Some(y)) => x.api_key@ == masked_key(y.api_key@) && x.model == y.model,
        (x, y) => x is None && y is None,
    }
    &&& match (m.openai_compatible_realtime, c.openai_compatible_realtime) {
        (Some(x), Some(y)) => {
            &&& opt_text(x.api_key) == opt_masked(opt_text(y.api_key))
            &&& x == OpenAiCompatibleRealtimeConfig { api_key: x.api_key, ..y }
        },
        (x, y) => x is None && y is None,
    }
    &&& match (m.asr_sidecar, c.asr_sidecar) {
        (Some(x), Some(y)) => {
            &&& opt_text(x.api_key) == opt_masked(opt_text(y.api_key))
            &&& x == AsrSidecarConfig { api_key: x.api_key, ..y }
        },
        (x, y) => x is None && y is None,
    }
    &&& match (m.llm, c.llm) {
        (Some(x), Some(y)) => {
            &&& x.api_key@ == masked_key(y.api_key@)
            &&& x == LlmConfig { api_key: x.api_key, ..y }
        },
        (x, y) => x is None && y is None,
    }
    &&& match (m.tts, c.tts) {
        (Some(x), Some(y)) => {
            &&& opt_text(x.api_key) == opt_masked(opt_text(y.api_key))
            &&& x == TtsConfig { api_key: x.api_key, ..y }
        },
        (x, y) => x is None && y is None,
    }
}

/// The configuration with every API key replaced by its masked form, for
/// display.
pub fn masked_config(config: Config) -> (r: Config)
    ensures
        is_masked_copy(r, config),
{
    let deepgram = match config.deepgram {
        Some(d) => Some(
            DeepgramConfig { api_key: mask_api_key(d.api_key.as_str()), model: d.model },
        ),
        None => None,
    };
    let groq = match config.groq {
        Some(g) => Some(GroqConfig { api_key: mask_api_key(g.api_key.as_str()), model: g.model }),
        None => None,
    };
    let openai = match config.openai {
        Some(o) => Some(OpenAiConfig { api_key: mask_api_key(o.api_key.as_str()), model: o.model }),
        None => None,
    };
    let openai_compatible_realtime = match config.openai_compatible_realtime {
        Some(x) => Some(
            OpenAiCompatibleRealtimeConfig {
                url: x.url,
                model: x.model,
                profile: x.profile,
                turn_detection: x.turn_detection,
                api_key: mask_optional(x.api_key),
            },
        ),
        None => None,
    };
    let asr_sidecar = match config.asr_sidecar {
        Some(x) => Some(
            AsrSidecarConfig { url: x.url, model: x.model, api_key: mask_optional(x.api_key) },
        ),
        None => None,
    };
    let llm = match config.llm {
        Some(l) => Some(
            LlmConfig {
                api_key: mask_api_key(l.api_key.as_str()),
                model: l.model,
                api_url: l.api_url,
            },
        ),
        None => None,
    };
    let tts = match config.tts {
        Some(t) => Some(
            TtsConfig {
                enabled: t.enabled,
                backend: t.backend,
                model: t.model,
                voice: t.voice,
                response_format: t.response_format,
                api_key: mask_optional(t.api_key),
                url: t.url,
            },
        ),
        None => None,
    };
    Config {
        general: config.general,
        audio: config.audio,
        input: config.input,
        deepgram,
        groq,
        openai,
        local_whisper: config.local_whisper,
        local_vosk: config.local_vosk,
        local_parakeet: config.local_parakeet,
        asr_sidecar,
        openai_compatible_realtime,
        llm,
        tts,
        hotkeys: config.hotkeys,
        overlay: config.overlay,
        hooks: config.hooks,
        llm_commands: config.llm_commands,
    }
}

/// The key that the chosen backend is used with, where it needs one.
pub open spec fn required_key(c: Config) -> Option<Seq<char>> {
    let b = c.general.backend@;
    if b == "groq"@ {
        match c.groq {
            Some(g) => Some(g.api_key@),
            None => None,
        }
    } else if b == "deepgram"@ || b == "deepgram-streaming"@ {
        match c.deepgram {
            Some(d) => Some(d.api_key@),
            None => None,
        }
    } else if b == "openai"@ || b == "openai-realtime"@ {
        match c.openai {
            Some(o) => Some(o.api_key@),
            None => None,
        }
    } else {
        None
    }
}

/// What the summary says of the key of the chosen backend.
pub open spec fn key_summary(c: Config) -> Seq<char> {
    let b = c.general.backend@;
    if b == "local-whisper"@ || b == "local"@ || b == "local-vosk"@ || b == "local-parakeet"@ {
        in_style(DIM@, "(local backend — no API key needed)"@)
    } else if b == "openai-compatible-realtime"@ {
        let key = match c.openai_compatible_realtime {
            Some(r) => opt_text(r.api_key),
            None => None,
        };
        match key {
            Some(k) if k.len() > 0 => in_style(BOLD@, masked_key(k)),
            _ => in_style(DIM@, "(optional bearer token not set)"@),
        }
    } else if b == "asr-sidecar"@ || b == "asr"@ || b == "vibevoice"@ {
        let key = match c.asr_sidecar {
            Some(s) => opt_text(s.api_key),
            None => None,
        };
        match key {
            Some(k) if trim(k).len() > 0 => in_style(BOLD@, masked_key(k)),
            _ => in_style(DIM@, "(optional API key not set)"@),
        }
    } else {
        match required_key(c) {
            Some(k) if k.len() > 0 => in_style(BOLD@, masked_key(k)),
            _ => in_style(YELLOW@, "not set"@),
        }
    }
}

fn is_blank(s: &str) -> (r: bool)
    ensures
        r == (trim(s@).len() == 0),
{
    trimmed_chars(&to_chars(s)).len() == 0
}

fn shown_key(key: &str) -> (r: String)
    ensures
        r@ == in_style(BOLD@, masked_key(key@)),
{
    styled(BOLD, mask_api_key(key).as_str())
}

fn required_key_or_warning(key: &str) -> (r: String)
    ensures
        r@ == (if key@.len() > 0 {
            in_style(BOLD@, masked_key(key@))
        } else {
            in_style(YELLOW@, "not set"@)
        }),
{
    if to_chars(key).len() > 0 {
        shown_key(key)
    } else {
        styled(YELLOW, "not set")
    }
}

/// Summarize whether the active backend has an API key configured. Shows the
/// last 4 characters, so that the key can be told from others without being
/// given away.
pub fn current_key_summary(config: &Config) -> (r: String)
    ensures
        r@ == key_summary(*config),
{
    let b = config.general.backend.as_str();
    if same_text(b, "local-whisper") || same_text(b, "local") || same_text(b, "local-vosk")
        || same_text(b, "local-parakeet") {
        return styled(DIM, "(local backend — no API key needed)");
    }
    if same_text(b, "openai-compatible-realtime") {
        if let Some(x) = &config.openai_compatible_realtime {
            if let Some(k) = &x.api_key {
                if to_chars(k.as_str()).len() > 0 {
                    return shown_key(k.as_str());
                }
            }
        }
        return styled(DIM, "(optional bearer token not set)");
    }
    if same_text(b, "asr-sidecar") || same_text(b, "asr") || same_text(b, "vibevoice") {
        if let Some(x) = &config.asr_sidecar {
            if let Some(k) = &x.api_key {
                if !is_blank(k.as_str()) {
                    return shown_key(k.as_str());
                }
            }
        }
        return styled(DIM, "(optional API key not set)");
    }
    if same_text(b, "groq") {
        if let Some(g) = &config.groq {
            return required_key_or_warning(g.api_key.as_str());
        }
    } else if same_text(b, "deepgram") || same_text(b, "deepgram-streaming") {
        if let Some(d) = &config.deepgram {
            return required_key_or_warning(d.api_key.as_str());
        }
    } else if same_text(b, "openai") || same_text(b, "openai-realtime") {
        if let Some(o) = &config.openai {
            return required_key_or_warning(o.api_key.as_str());
        }
    }
    styled(YELLOW, "not set")
}

/// What the summary says of the daemon.
pub fn daemon_status_string(active: bool) -> (r: String)
    ensures
        r@ == (if active {
            in_style(GREEN@, "running"@)
        } else {
            in_style(DIM@, "not running (or no service installed)"@)
        }),
{
    if active {
        styled(GREEN, "running")
    } else {
        styled(DIM, "not running (or no service installed)")
    }
}

/// Whether `shown` hides `key`: it has four stars in front, and behind them
/// nothing but the last four characters of a key that is longer than that.
pub open spec fn hides(shown: Seq<char>, key: Seq<char>) -> bool {
    &&& shown.len() == (if key.len() > 4 {
        8int
    } else {
        4int
    })
    &&& forall|i: int| 0 <= i < 4 ==> #[trigger] shown[i] == '*'
    &&& key.len() > 4 ==> forall|i: int| 4 <= i < 8 ==> #[trigger] shown[i] == key[key.len() - 8 + i]
}

/// A masked key shows its last four characters at most.
pub proof fn masked_keys_are_hidden(key: Seq<char>)
    ensures
        hides(masked_key(key), key),
{
    reveal_strlit("****");
}

/// Whether an optional key is hidden: it is there where the key is.
pub open spec fn hides_optional(shown: Option<String>, key: Option<String>) -> bool {
    match (shown, key) {
        (Some(s), Some(k)) => hides(s@, k@),
        (s, k) => s is None && k is None,
    }
}

/// A configuration for display hides the key of every section, and shows
/// everything else as it is.
pub proof fn display_hides_every_key_and_nothing_else(m: Config, c: Config)
    requires
        is_masked_copy(m, c),
    ensures
        m.general == c.general && m.audio == c.audio && m.input == c.input && m.hotkeys == c.hotkeys
            && m.overlay == c.overlay && m.hooks == c.hooks && m.llm_commands == c.llm_commands,
        m.local_whisper == c.local_whisper && m.local_vosk == c.local_vosk && m.local_parakeet
            == c.local_parakeet,
        match (m.deepgram, c.deepgram) {
            (Some(x), Some(y)) => hides(x.api_key@, y.api_key@) && x.model == y.model,
            (x, y) => x is None && y is None,
        },
        match (m.groq, c.groq) {
            (Some(x), Some(y)) => hides(x.api_key@, y.api_key@) && x.model == y.model,
            (x, y) => x is None && y is None,
        },
        match (m.openai, c.openai) {
            (Some(x), Some(y)) => hides(x.api_key@, y.api_key@) && x.model == y.model,
            (x, y) => x is None && y is None,
        },
        match (m.openai_compatible_realtime, c.openai_compatible_realtime) {
            (Some(x), Some(y)) => hides_optional(x.api_key, y.api_key) && x.url == y.url && x.model
                == y.model && x.profile == y.profile && x.turn_detection == y.turn_detection,
            (x, y) => x is None && y is None,
        },
        match (m.asr_sidecar, c.asr_sidecar) {
            (Some(x), Some(y)) => hides_optional(x.api_key, y.api_key) && x.url == y.url && x.model
                == y.model,
            (x, y) => x is None && y is None,
        },
        match (m.llm, c.llm) {
            (Some(x), Some(y)) => hides(x.api_key@, y.api_key@) && x.model == y.model && x.api_url
                == y.api_url,
            (x, y) => x is None && y is None,
        },
        match (m.tts, c.tts) {
            (Some(x), Some(y)) => hides_optional(x.api_key, y.api_key) && x.enabled == y.enabled
                && x.backend == y.backend && x.model == y.model && x.voice == y.voice
                && x.response_format == y.response_format && x.url == y.url,
            (x, y) => x is None && y is None,
        },
{
    if let Some(y) = c.deepgram {
        masked_keys_are_hidden(y.api_key@);
    }
    if let Some(y) = c.groq {
        masked_keys_are_hidden(y.api_key@);
    }
    if let Some(y) = c.openai {
        masked_keys_are_hidden(y.api_key@);
    }
    if let Some(y) = c.openai_compatible_realtime {
        if let Some(k) = y.api_key {
            masked_keys_are_hidden(k@);
        }
    }
    if let Some(y) = c.asr_sidecar {
        if let Some(k) = y.api_key {
            masked_keys_are_hidden(k@);
        }
    }
    if let Some(y) = c.llm {
        masked_keys_are_hidden(y.api_key@);
    }
    if let Some(y) = c.tts {
        if let Some(k) = y.api_key {
            masked_keys_are_hidden(k@);
        }
    }
}

/// Whether a summary shows a key: its masked form stands there in bold type.
pub open spec fn shows_key(summary: Seq<char>, key: Seq<char>) -> bool {
    exists|shown: Seq<char>|
        hides(shown, key) && summary == "\x1b[1m"@ + #[trigger] (shown + "\x1b[0m"@)
}

/// The summary shows the key that the chosen backend is used with, masked, and
/// a warning or a remark where there is none: each backend has its own
/// section, the local ones need no key, and two others may do without one.
pub proof fn summary_shows_the_key_of_the_backend(c: Config)
    ensures
        c.general.backend@ == "groq"@ ==> match c.groq {
            Some(g) if g.api_key@.len() > 0 => shows_key(key_summary(c), g.api_key@),
            _ => key_summary(c) == "\x1b[33m"@ + "not set"@ + "\x1b[0m"@,
        },
        c.general.backend@ == "deepgram"@ || c.general.backend@ == "deepgram-streaming"@
            ==> match c.deepgram {
            Some(d) if d.api_key@.len() > 0 => shows_key(key_summary(c), d.api_key@),
            _ => key_summary(c) == "\x1b[33m"@ + "not set"@ + "\x1b[0m"@,
        },
        c.general.backend@ == "openai"@ || c.general.backend@ == "openai-realtime"@
            ==> match c.openai {
            Some(o) if o.api_key@.len() > 0 => shows_key(key_summary(c), o.api_key@),
            _ => key_summary(c) == "\x1b[33m"@ + "not set"@ + "\x1b[0m"@,
        },
        c.general.backend@ == "local-whisper"@ || c.general.backend@ == "local-vosk"@
            || c.general.backend@ == "local-parakeet"@ || c.general.backend@ == "local"@
            ==> key_summary(c) == "\x1b[2m"@ + "(local backend — no API key needed)"@ + "\x1b[0m"@,
        c.general.backend@ == "openai-compatible-realtime"@
            ==> match c.openai_compatible_realtime {
            Some(x) if x.api_key is Some && x.api_key->0@.len() > 0 => shows_key(
                key_summary(c),
                x.api_key->0@,
            ),
            _ => key_summary(c) == "\x1b[2m"@ + "(optional bearer token not set)"@ + "\x1b[0m"@,
        },
        c.general.backend@ == "asr-sidecar"@ || c.general.backend@ == "asr"@ || c.general.backend@
            == "vibevoice"@ ==> match c.asr_sidecar {
            Some(x) if x.api_key is Some && trim(x.api_key->0@).len() > 0 => shows_key(
                key_summary(c),
                x.api_key->0@,
            ),
            _ => key_summary(c) == "\x1b[2m"@ + "(optional API key not set)"@ + "\x1b[0m"@,
        },
{
    reveal_strlit("groq");
    reveal_strlit("deepgram");
    reveal_strlit("deepgram-streaming");
    reveal_strlit("openai");
    reveal_strlit("openai-realtime");
    reveal_strlit("openai-compatible-realtime");
    reveal_strlit("local-whisper");
    reveal_strlit("local");
    reveal_strlit("local-vosk");
    reveal_strlit("local-parakeet");
    reveal_strlit("asr-sidecar");
    reveal_strlit("asr");
    reveal_strlit("vibevoice");
    names_tell_backends_apart();
    if let Some(g) = c.groq {
        summary_of_key(g.api_key@);
    }
    if let Some(d) = c.deepgram {
        summary_of_key(d.api_key@);
    }
    if let Some(o) = c.openai {
        summary_of_key(o.api_key@);
    }
    if let Some(x) = c.openai_compatible_realtime {
        if let Some(k) = x.api_key {
            summary_of_key(k@);
        }
    }
    if let Some(x) = c.asr_sidecar {
        if let Some(k) = x.api_key {
            summary_of_key(k@);
        }
    }
}

proof fn summary_of_key(key: Seq<char>)
    ensures
        shows_key(in_style(BOLD@, masked_key(key)), key),
{
    masked_keys_are_hidden(key);
    let shown = masked_key(key);
    assert(in_style(BOLD@, shown) =~= "\x1b[1m"@ + (shown + "\x1b[0m"@));
}

/// The names of the backends differ in their length.
pub proof fn names_tell_backends_apart()
    ensures
        "groq"@.len() == 4 && "deepgram"@.len() == 8 && "openai"@.len() == 6 && "local"@.len() == 5
            && "asr"@.len() == 3 && "vibevoice"@.len() == 9,
        "deepgram-streaming"@.len() == 18 && "openai-realtime"@.len() == 15 && "asr-sidecar"@.len()
            == 11,
        "openai-compatible-realtime"@.len() == 26 && "local-whisper"@.len() == 13
            && "local-vosk"@.len() == 10 && "local-parakeet"@.len() == 14,
{
    reveal_strlit("groq");
    reveal_strlit("deepgram");
    reveal_strlit("deepgram-streaming");
    reveal_strlit("openai");
    reveal_strlit("openai-realtime");
    reveal_strlit("openai-compatible-realtime");
    reveal_strlit("local-whisper");
    reveal_strlit("local");
    reveal_strlit("local-vosk");
    reveal_strlit("local-parakeet");
    reveal_strlit("asr-sidecar");
    reveal_strlit("asr");
    reveal_strlit("vibevoice");
}

} // verus!
