//! Validation of a configuration: fatal problems of the selected backend, and
//! warnings about settings that do not do what they seem to.

use crate::config::types::{
    join_path, path_join, warning_texts, Config, ConfigWarning, HotkeyConfig, LlmCommandConfig,
    OpenAiCompatibleRealtimeConfig, WhisrsError,
};
use crate::text::{opt_text, same_text, texts, trim, trimmed};
use vstd::prelude::*;

verus! {

/// A parsed key combo: modifier key codes and the code of the trigger key.
#[derive(Debug, Clone)]
pub struct Hotkey {
    pub modifiers: Vec<u16>,
    pub trigger: u16,
}

/// How the hotkey listener reads one hotkey spec.
#[derive(Debug)]
pub struct HotkeyReading {
    pub spec: String,
    pub reading: Result<Hotkey, String>,
}

/// What validation needs to know of the world around a configuration.
#[derive(Debug)]
pub struct Surroundings {
    /// Whether `WHISRS_DEEPGRAM_API_KEY` is set and not empty.
    pub deepgram_env_key: bool,
    /// Whether `WHISRS_GROQ_API_KEY` is set and not empty.
    pub groq_env_key: bool,
    /// Whether `WHISRS_OPENAI_API_KEY` is set and not empty.
    pub openai_env_key: bool,
    /// The user's data directory, where it is known.
    pub data_dir: Option<String>,
    /// Whether something exists at [`Config::model_path`].
    pub model_exists: bool,
    /// Why the realtime profile is not a known one, if it is not.
    pub profile_error: Option<String>,
    /// Why the turn detection mode is not a known one, if it is not.
    pub turn_detection_error: Option<String>,
    /// How each of [`Config::hotkey_specs`] is read.
    pub hotkeys: Vec<HotkeyReading>,
}

pub const DEEPGRAM_KEY_MISSING: &'static str =
    "Deepgram backend selected but no API key configured.\nSet WHISRS_DEEPGRAM_API_KEY or add [deepgram] api_key to config.toml.\nRun 'whisrs setup' to get started.";

pub const GROQ_KEY_MISSING: &'static str =
    "Groq backend selected but no API key configured.\nSet WHISRS_GROQ_API_KEY or add [groq] api_key to config.toml.\nRun 'whisrs setup' to get started.";

pub const OPENAI_KEY_MISSING: &'static str =
    "OpenAI backend selected but no API key configured.\nSet WHISRS_OPENAI_API_KEY or add [openai] api_key to config.toml.\nRun 'whisrs setup' to get started.";

pub const WHISPER_MODEL_MISSING: &'static str =
    "Local whisper backend selected but model file not found: ";

pub const WHISPER_MODEL_HINT: &'static str = "\nRun 'whisrs setup' to download a model.";

pub const VOSK_MODEL_MISSING: &'static str =
    "Vosk backend selected but model directory not found.\nRun 'whisrs setup' to download a model.";

pub const PARAKEET_MODEL_MISSING: &'static str =
    "Parakeet backend selected but model directory not found.\nRun 'whisrs setup' to download a model.";

pub const SIDECAR_URL_MISSING: &'static str =
    "ASR sidecar backend selected but no sidecar URL configured.\nAdd [asr-sidecar] url to config.toml.";

pub const REALTIME_SECTION_MISSING: &'static str =
    "OpenAI-compatible realtime backend selected but no config section found.\nAdd [openai-compatible-realtime] to config.toml.";

pub const REALTIME_URL_MISSING: &'static str =
    "OpenAI-compatible realtime backend selected but no WebSocket URL configured.\nAdd [openai-compatible-realtime] url to config.toml.";

pub const REALTIME_URL_INVALID: &'static str = "OpenAI-compatible realtime URL is invalid: ";

pub const REALTIME_URL_SCHEME: &'static str =
    "OpenAI-compatible realtime URL must use ws:// or wss://, got ";

pub const REALTIME_MODEL_MISSING: &'static str =
    "OpenAI-compatible realtime backend selected but model is empty.\nSet [openai-compatible-realtime] model in config.toml.";

pub const REALTIME_PROFILE_INVALID: &'static str =
    "OpenAI-compatible realtime profile is invalid: ";

pub const REALTIME_PROFILE_UNSUPPORTED: &'static str =
    "OpenAI-compatible realtime backend currently supports only profile 'lemonade'.";

pub const REALTIME_TURN_DETECTION_INVALID: &'static str =
    "OpenAI-compatible realtime turn detection is invalid: ";

pub const UNKNOWN_BACKEND_HINT: &'static str =
    "'. Valid options: deepgram, deepgram-streaming, groq, openai, openai-realtime, openai-compatible-realtime, local-whisper, local-vosk, local-parakeet, asr-sidecar";

pub const NO_SILENCE_TIMEOUT: &'static str =
    "silence_timeout_ms is 0 — auto-stop is effectively disabled";

pub const PASTE_HEAD: &'static str =
    "[input] paste = true does not apply to dictation with backend = \"";

pub const PASTE_TAIL: &'static str =
    "\": streaming backends (deepgram-streaming, openai-realtime, openai-compatible-realtime, local-whisper) type text incrementally as it arrives and never use the paste path. Command mode output is injected in one shot, so it still uses paste where that mode is configured. Switch to a non-streaming backend (deepgram, groq, openai, local-vosk, local-parakeet, asr-sidecar) to use paste injection for dictation too.";

pub const NO_LLM_SECTION: &'static str =
    "llm_commands configured but no [llm] section — add [llm] api_key (or set WHISRS_OPENAI_API_KEY / WHISRS_GROQ_API_KEY) or these hotkeys will fail at runtime";

pub const ONE_SHOT_HEAD: &'static str = "llm_commands run one-shot with backend = \"";

pub const ONE_SHOT_TAIL: &'static str =
    "\": the llm-command path pushes the whole recording through a single batch transcription call, so the streaming behavior this backend is configured for does not apply to these hotkeys. They still work — the transcript just arrives in one round trip after recording stops. Dictation (toggle) streams as configured.";

pub const COMMAND_NAME_EMPTY: &'static str = "llm_commands entry has an empty name";

/// The scheme of the URL that `reqwest::Url::parse` reads from a text, or the
/// text of its error.
pub uninterp spec fn parsed_url_scheme(url: Seq<char>) -> Result<Seq<char>, Seq<char>>;

/// The contents of a result of two strings.
pub open spec fn result_text(r: Result<String, String>) -> Result<Seq<char>, Seq<char>> {
    match r {
        Ok(s) => Ok(s@),
        Err(e) => Err(e@),
    }
}

/// `reqwest::Url::parse`: the scheme of the parsed URL, or the error's text.
/// Both depend on the text alone.
#[verifier::external_body]
fn url_scheme(url: &str) -> (r: Result<String, String>)
    ensures
        result_text(r) == parsed_url_scheme(url@),
{
    match reqwest::Url::parse(url) {
        Ok(parsed) => Ok(parsed.scheme().to_owned()),
        Err(e) => Err(e.to_string()),
    }
}

/// Whether nothing but white space is in `s`.
pub open spec fn blank(s: Seq<char>) -> bool {
    trim(s).len() == 0
}

fn is_blank(s: &str) -> (r: bool)
    ensures
        r == blank(s@),
{
    trimmed(s).as_str().is_empty()
}

/// How the first of `readings` with this spec reads it.
pub open spec fn reading_of(readings: Seq<HotkeyReading>, spec: Seq<char>) -> Option<
    Result<Hotkey, String>,
>
    decreases readings.len(),
{
    if readings.len() == 0 {
        None
    } else if readings[0].spec@ == spec {
        Some(readings[0].reading)
    } else {
        reading_of(readings.drop_first(), spec)
    }
}

fn find_reading<'a>(readings: &'a [HotkeyReading], spec: &str) -> (r: Option<
    &'a Result<Hotkey, String>,
>)
    ensures
        match r {
            Some(x) => reading_of(readings@, spec@) == Some(*x),
            None => reading_of(readings@, spec@) is None,
        },
{
    let mut i: usize = 0;
    assert(readings@.skip(0) =~= readings@);
    while i < readings.len()
        invariant
            i <= readings@.len(),
            reading_of(readings@, spec@) == reading_of(readings@.skip(i as int), spec@),
        decreases readings@.len() - i,
    {
        assert(readings@.skip(i as int)[0] == readings@[i as int]);
        assert(readings@.skip(i as int).drop_first() =~= readings@.skip(i + 1));
        if same_text(readings[i].spec.as_str(), spec) {
            return Some(&readings[i].reading);
        }
        i += 1;
    }
    None
}

/// Whether two combos are pressed by the same keys: the same trigger, and the
/// same modifiers in any order.
pub open spec fn same_combo(a: Hotkey, b: Hotkey) -> bool {
    &&& a.trigger == b.trigger
    &&& forall|m: u16| a.modifiers@.contains(m) <==> b.modifiers@.contains(m)
}

fn all_in(a: &[u16], b: &[u16]) -> (r: bool)
    ensures
        r == (forall|m: u16| a@.contains(m) ==> b@.contains(m)),
{
    let mut i: usize = 0;
    while i < a.len()
        invariant
            i <= a@.len(),
            forall|k: int| 0 <= k < i ==> b@.contains(a@[k]),
        decreases a@.len() - i,
    {
        let mut found = false;
        let mut j: usize = 0;
        while j < b.len()
            invariant
                i < a@.len(),
                j <= b@.len(),
                found == (exists|k: int| 0 <= k < j && b@[k] == a@[i as int]),
            decreases b@.len() - j,
        {
            if b[j] == a[i] {
                found = true;
            }
            j += 1;
        }
        if !found {
            assert(a@.contains(a@[i as int]));
            return false;
        }
        i += 1;
    }
    true
}

fn is_same_combo(a: &Hotkey, b: &Hotkey) -> (r: bool)
    ensures
        r == same_combo(*a, *b),
{
    a.trigger == b.trigger && all_in(&a.modifiers, &b.modifiers) && all_in(
        &b.modifiers,
        &a.modifiers,
    )
}

/// The specs that `v` holds.
pub open spec fn present(v: Option<String>) -> Seq<Seq<char>> {
    match v {
        Some(s) => seq![s@],
        None => seq![],
    }
}

/// The hotkey specs of the first `n` commands.
pub open spec fn command_specs(commands: Seq<LlmCommandConfig>, n: nat) -> Seq<Seq<char>>
    decreases n,
{
    if n == 0 {
        seq![]
    } else {
        command_specs(commands, (n - 1) as nat) + seq![commands[n - 1].hotkey@] + present(
            commands[n - 1].set_hotkey,
        )
    }
}

/// Every hotkey spec in a configuration.
pub open spec fn all_specs(c: Config) -> Seq<Seq<char>> {
    let own = match c.hotkeys {
        Some(h) => present(h.toggle) + present(h.cancel) + present(h.command) + present(h.speak),
        None => seq![],
    };
    own + command_specs(c.llm_commands@, c.llm_commands@.len())
}

/// Whether there is a reading for every hotkey spec of `c`.
pub open spec fn readings_cover(readings: Seq<HotkeyReading>, c: Config) -> bool {
    forall|i: int|
        0 <= i < all_specs(c).len() ==> (reading_of(readings, #[trigger] all_specs(c)[i]) is Some)
}

/// Whether the config file holds a key for the backend.
pub open spec fn deepgram_config_key(c: Config) -> bool {
    c.deepgram matches Some(d) && d.api_key@.len() > 0
}

/// Whether the configuration has a key for Groq.
pub open spec fn groq_config_key(c: Config) -> bool {
    c.groq matches Some(d) && d.api_key@.len() > 0
}

/// Whether the configuration has a key for OpenAI.
pub open spec fn openai_config_key(c: Config) -> bool {
    c.openai matches Some(d) && d.api_key@.len() > 0
}

fn nonempty(s: &String) -> (r: bool)
    ensures
        r == (s@.len() > 0),
{
    !s.as_str().is_empty()
}

fn has_deepgram_config_key(c: &Config) -> (r: bool)
    ensures
        r == deepgram_config_key(*c),
{
    match &c.deepgram {
        Some(d) => nonempty(&d.api_key),
        None => false,
    }
}

fn has_groq_config_key(c: &Config) -> (r: bool)
    ensures
        r == groq_config_key(*c),
{
    match &c.groq {
        Some(d) => nonempty(&d.api_key),
        None => false,
    }
}

fn has_openai_config_key(c: &Config) -> (r: bool)
    ensures
        r == openai_config_key(*c),
{
    match &c.openai {
        Some(d) => nonempty(&d.api_key),
        None => false,
    }
}

/// The model file of the local whisper backend.
pub open spec fn whisper_model(c: Config, data_dir: Option<Seq<char>>) -> Seq<char> {
    match c.local_whisper {
        Some(l) => l.model_path@,
        None => {
            let dir = match data_dir {
                Some(d) => d,
                None => "~/.local/share"@,
            };
            path_join(dir, "whisrs/models/ggml-base.en.bin"@)
        },
    }
}

/// The model directory of the local Vosk backend, empty where none is set.
pub open spec fn vosk_model(c: Config) -> Seq<char> {
    match c.local_vosk {
        Some(l) => l.model_path@,
        None => ""@,
    }
}

/// The model directory of the local Parakeet backend, empty where none is set.
pub open spec fn parakeet_model(c: Config) -> Seq<char> {
    match c.local_parakeet {
        Some(l) => l.model_path@,
        None => ""@,
    }
}

/// Whether a backend is one of Deepgram.
pub open spec fn is_deepgram(b: Seq<char>) -> bool {
    b == "deepgram"@ || b == "deepgram-streaming"@
}

/// Whether a backend is one of OpenAI.
pub open spec fn is_openai(b: Seq<char>) -> bool {
    b == "openai"@ || b == "openai-realtime"@
}

/// Whether a backend is the local whisper.cpp.
pub open spec fn is_whisper(b: Seq<char>) -> bool {
    b == "local-whisper"@ || b == "local"@
}

/// Whether a backend is the sidecar.
pub open spec fn is_sidecar(b: Seq<char>) -> bool {
    b == "asr-sidecar"@ || b == "asr"@ || b == "vibevoice"@
}

/// Backends that transcribe over a WebSocket while the user speaks.
pub open spec fn is_streaming(b: Seq<char>) -> bool {
    b == "deepgram-streaming"@ || b == "openai-realtime"@ || b == "openai-compatible-realtime"@
}

/// What is wrong with the realtime section, given what its URL's scheme is.
/// The first problem counts.
pub open spec fn realtime_problem(
    r: OpenAiCompatibleRealtimeConfig,
    scheme: Result<Seq<char>, Seq<char>>,
    w: Surroundings,
) -> Option<Seq<char>> {
    if blank(r.url@) {
        Some(REALTIME_URL_MISSING@)
    } else {
        match scheme {
            Err(e) => Some(REALTIME_URL_INVALID@ + e),
            Ok(s) => if s != "ws"@ && s != "wss"@ {
                Some(REALTIME_URL_SCHEME@ + s + "://"@)
            } else if blank(r.model@) {
                Some(REALTIME_MODEL_MISSING@)
            } else if let Some(e) = w.profile_error {
                Some(REALTIME_PROFILE_INVALID@ + e@)
            } else if trim(r.profile@) != "lemonade"@ {
                Some(REALTIME_PROFILE_UNSUPPORTED@)
            } else if let Some(e) = w.turn_detection_error {
                Some(REALTIME_TURN_DETECTION_INVALID@ + e@)
            } else {
                None
            },
        }
    }
}

/// The problem that makes the selected backend unusable, if there is one.
pub open spec fn backend_problem(
    c: Config,
    scheme: Result<Seq<char>, Seq<char>>,
    w: Surroundings,
) -> Option<Seq<char>> {
    let b = c.general.backend@;
    if is_deepgram(b) {
        if deepgram_config_key(c) || w.deepgram_env_key {
            None
        } else {
            Some(DEEPGRAM_KEY_MISSING@)
        }
    } else if b == "groq"@ {
        if groq_config_key(c) || w.groq_env_key {
            None
        } else {
            Some(GROQ_KEY_MISSING@)
        }
    } else if is_openai(b) {
        if openai_config_key(c) || w.openai_env_key {
            None
        } else {
            Some(OPENAI_KEY_MISSING@)
        }
    } else if is_whisper(b) || b == "local-vosk"@ || b == "local-parakeet"@ {
        None
    } else if is_sidecar(b) {
        if c.asr_sidecar matches Some(s) && !blank(s.url@) {
            None
        } else {
            Some(SIDECAR_URL_MISSING@)
        }
    } else if b == "openai-compatible-realtime"@ {
        match c.openai_compatible_realtime {
            None => Some(REALTIME_SECTION_MISSING@),
            Some(r) => realtime_problem(r, scheme, w),
        }
    } else {
        Some("Unknown backend '"@ + b + UNKNOWN_BACKEND_HINT@)
    }
}

/// What a local backend lacks.
pub open spec fn model_warnings(c: Config, w: Surroundings) -> Seq<Seq<char>> {
    let b = c.general.backend@;
    if is_whisper(b) && !w.model_exists {
        seq![
            WHISPER_MODEL_MISSING@ + whisper_model(c, opt_text(w.data_dir)) + WHISPER_MODEL_HINT@,
        ]
    } else if b == "local-vosk"@ && (vosk_model(c).len() == 0 || !w.model_exists) {
        seq![VOSK_MODEL_MISSING@]
    } else if b == "local-parakeet"@ && (parakeet_model(c).len() == 0 || !w.model_exists) {
        seq![PARAKEET_MODEL_MISSING@]
    } else {
        seq![]
    }
}

/// Settings that the selected backend does not honor.
pub open spec fn general_warnings(c: Config) -> Seq<Seq<char>> {
    let b = c.general.backend@;
    let silence = if c.general.silence_timeout_ms == 0 {
        seq![NO_SILENCE_TIMEOUT@]
    } else {
        seq![]
    };
    let paste = if c.input.paste && (is_streaming(b) || is_whisper(b)) {
        seq![PASTE_HEAD@ + b + PASTE_TAIL@]
    } else {
        seq![]
    };
    silence + paste
}

/// Warnings about the name of a command.
pub open spec fn name_warnings(commands: Seq<LlmCommandConfig>, i: int) -> Seq<Seq<char>> {
    let name = commands[i].name@;
    if blank(name) {
        seq![COMMAND_NAME_EMPTY@]
    } else if exists|j: int| 0 <= j < i && (#[trigger] commands[j]).name@ == name {
        seq!["llm_commands has a duplicate name: '"@ + name + "'"@]
    } else {
        seq![]
    }
}

/// Warnings about the hotkey of a command.
pub open spec fn hotkey_warnings(e: LlmCommandConfig, readings: Seq<HotkeyReading>) -> Seq<
    Seq<char>,
> {
    if blank(e.hotkey@) {
        seq!["llm_commands '"@ + e.name@ + "' has an empty hotkey"@]
    } else if let Some(Err(err)) = reading_of(readings, e.hotkey@) {
        seq![
            "llm_commands '"@ + e.name@ + "' has an invalid hotkey '"@ + e.hotkey@ + "': "@ + err@,
        ]
    } else {
        seq![]
    }
}

/// Warnings about the hotkey that reprograms a command.
pub open spec fn set_hotkey_warnings(e: LlmCommandConfig, readings: Seq<HotkeyReading>) -> Seq<
    Seq<char>,
> {
    match e.set_hotkey {
        None => seq![],
        Some(s) => if let Some(Err(err)) = reading_of(readings, s@) {
            seq![
                "llm_commands '"@ + e.name@ + "' has an invalid set_hotkey '"@ + s@ + "': "@ + err@,
            ]
        } else if s@ == e.hotkey@ {
            seq![
                "llm_commands '"@ + e.name@ + "' has set_hotkey equal to hotkey '"@ + e.hotkey@
                    + "' — one press can't both run and reprogram"@,
            ]
        } else {
            seq![]
        },
    }
}

/// Warnings about the instruction of a command.
pub open spec fn instruction_warnings(e: LlmCommandConfig) -> Seq<Seq<char>> {
    if blank(e.instruction@) {
        seq!["llm_commands '"@ + e.name@ + "' has an empty instruction"@]
    } else {
        seq![]
    }
}

/// What is wrong with the first `n` commands, one after the other.
pub open spec fn entry_warnings(
    commands: Seq<LlmCommandConfig>,
    readings: Seq<HotkeyReading>,
    n: nat,
) -> Seq<Seq<char>>
    decreases n,
{
    if n == 0 {
        seq![]
    } else {
        let e = commands[n - 1];
        entry_warnings(commands, readings, (n - 1) as nat) + name_warnings(commands, n - 1)
            + hotkey_warnings(e, readings) + set_hotkey_warnings(e, readings)
            + instruction_warnings(e)
    }
}

/// What is wrong with the commands as a whole and one by one.
pub open spec fn command_warnings(c: Config, w: Surroundings) -> Seq<Seq<char>> {
    let b = c.general.backend@;
    if c.llm_commands@.len() == 0 {
        seq![]
    } else {
        let section = if c.llm is None {
            seq![NO_LLM_SECTION@]
        } else {
            seq![]
        };
        let one_shot = if is_streaming(b) {
            seq![ONE_SHOT_HEAD@ + b + ONE_SHOT_TAIL@]
        } else {
            seq![]
        };
        section + one_shot + entry_warnings(
            c.llm_commands@,
            w.hotkeys@,
            c.llm_commands@.len(),
        )
    }
}

/// Something that a key combo is bound to: where the binding stands, and its
/// spec.
#[derive(Debug, Clone)]
pub struct Binding {
    pub source: String,
    pub spec: String,
}

/// A binding's source and spec.
pub open spec fn binding_view(b: Binding) -> (Seq<char>, Seq<char>) {
    (b.source@, b.spec@)
}

/// What each binding holds, in order.
pub open spec fn binding_views(v: Seq<Binding>) -> Seq<(Seq<char>, Seq<char>)> {
    Seq::new(v.len(), |i: int| binding_view(v[i]))
}

/// The binding of a spec, where there is one.
pub open spec fn bound(source: Seq<char>, spec: Option<String>) -> Seq<(Seq<char>, Seq<char>)> {
    match spec {
        Some(s) => seq![(source, s@)],
        None => seq![],
    }
}

/// The bindings of `[hotkeys]`.
pub open spec fn own_bindings(h: HotkeyConfig) -> Seq<(Seq<char>, Seq<char>)> {
    bound("[hotkeys] toggle"@, h.toggle) + bound("[hotkeys] cancel"@, h.cancel) + bound(
        "[hotkeys] command"@,
        h.command,
    ) + bound("[hotkeys] speak"@, h.speak)
}

/// The bindings of one command. A `set_hotkey` that repeats the hotkey letter
/// for letter has a warning of its own and is left out.
pub open spec fn entry_bindings(e: LlmCommandConfig) -> Seq<(Seq<char>, Seq<char>)> {
    let first = seq![("llm_commands '"@ + e.name@ + "' hotkey"@, e.hotkey@)];
    match e.set_hotkey {
        Some(s) => if s@ != e.hotkey@ {
            first.push(("llm_commands '"@ + e.name@ + "' set_hotkey"@, s@))
        } else {
            first
        },
        None => first,
    }
}

/// The bindings of the first `n` commands.
pub open spec fn command_bindings(commands: Seq<LlmCommandConfig>, n: nat) -> Seq<
    (Seq<char>, Seq<char>),
>
    decreases n,
{
    if n == 0 {
        seq![]
    } else {
        command_bindings(commands, (n - 1) as nat) + entry_bindings(commands[n - 1])
    }
}

/// Everything that a combo is bound to, in the order of the file's sections.
pub open spec fn all_bindings(c: Config) -> Seq<(Seq<char>, Seq<char>)> {
    let own = match c.hotkeys {
        Some(h) => own_bindings(h),
        None => seq![],
    };
    own + command_bindings(c.llm_commands@, c.llm_commands@.len())
}

/// The combo that a binding fires on. A blank or unreadable spec never fires.
pub open spec fn combo(b: (Seq<char>, Seq<char>), readings: Seq<HotkeyReading>) -> Option<Hotkey> {
    if blank(b.1) {
        None
    } else {
        match reading_of(readings, b.1) {
            Some(Ok(h)) => Some(h),
            _ => None,
        }
    }
}

/// Whether two bindings fire on the same combo.
pub open spec fn collide(
    a: (Seq<char>, Seq<char>),
    b: (Seq<char>, Seq<char>),
    readings: Seq<HotkeyReading>,
) -> bool {
    match (combo(a, readings), combo(b, readings)) {
        (Some(x), Some(y)) => same_combo(x, y),
        _ => false,
    }
}

/// The first binding from `from` on and before `i` that collides with the one
/// at `i`.
pub open spec fn first_collision(
    bs: Seq<(Seq<char>, Seq<char>)>,
    readings: Seq<HotkeyReading>,
    i: int,
    from: int,
) -> Option<int>
    decreases i - from,
{
    if from >= i {
        None
    } else if collide(bs[from], bs[i], readings) {
        Some(from)
    } else {
        first_collision(bs, readings, i, from + 1)
    }
}

/// The warning about two bindings on one combo.
pub open spec fn collision_text(
    a: (Seq<char>, Seq<char>),
    b: (Seq<char>, Seq<char>),
) -> Seq<char> {
    "duplicate hotkey binding: "@ + a.0 + " ('"@ + a.1 + "') and "@ + b.0 + " ('"@ + b.1
        + "') use the same combo — one press fires both actions; rebind one of them"@
}

/// One warning for each of the first `n` bindings that an earlier one shares
/// its combo with, naming the earliest such binding.
pub open spec fn collision_warnings(
    bs: Seq<(Seq<char>, Seq<char>)>,
    readings: Seq<HotkeyReading>,
    n: nat,
) -> Seq<Seq<char>>
    decreases n,
{
    if n == 0 {
        seq![]
    } else {
        let before = collision_warnings(bs, readings, (n - 1) as nat);
        match first_collision(bs, readings, n - 1, 0) {
            Some(j) => before.push(collision_text(bs[j], bs[n - 1])),
            None => before,
        }
    }
}

proof fn collision_is_found(
    bs: Seq<(Seq<char>, Seq<char>)>,
    readings: Seq<HotkeyReading>,
    i: int,
    from: int,
)
    requires
        0 <= from,
    ensures
        match first_collision(bs, readings, i, from) {
            Some(k) => from <= k < i && collide(bs[k], bs[i], readings),
            None => forall|k: int| from <= k < i ==> !collide(#[trigger] bs[k], bs[i], readings),
        },
    decreases i - from,
{
    if from < i && !collide(bs[from], bs[i], readings) {
        collision_is_found(bs, readings, i, from + 1);
    }
}

/// A combo that is bound twice is reported, however its modifiers are ordered
/// in the two specs: the later binding is named with one that it collides
/// with.
pub proof fn shared_combo_is_reported(
    bs: Seq<(Seq<char>, Seq<char>)>,
    readings: Seq<HotkeyReading>,
    n: nat,
    i: int,
    j: int,
)
    requires
        0 <= i < j < n <= bs.len(),
        collide(bs[i], bs[j], readings),
    ensures
        exists|k: int|
            0 <= k < j && collide(#[trigger] bs[k], bs[j], readings) && collision_warnings(
                bs,
                readings,
                n,
            ).contains(collision_text(bs[k], bs[j])),
    decreases n,
{
    let before = collision_warnings(bs, readings, (n - 1) as nat);
    let now = collision_warnings(bs, readings, n);
    collision_is_found(bs, readings, n - 1, 0);
    if j == n - 1 {
        let k = first_collision(bs, readings, j, 0)->0;
        assert(now[before.len() as int] == collision_text(bs[k], bs[j]));
    } else {
        shared_combo_is_reported(bs, readings, (n - 1) as nat, i, j);
        let k = choose|k: int|
            0 <= k < j && collide(#[trigger] bs[k], bs[j], readings) && before.contains(
                collision_text(bs[k], bs[j]),
            );
        let t = collision_text(bs[k], bs[j]);
        let at = choose|at: int| 0 <= at < before.len() && before[at] == t;
        assert(now[at] == t);
    }
}

/// Where no two bindings fire on the same combo, nothing is reported. Blank
/// specs fire on none, so they never collide, not even with each other.
pub proof fn distinct_combos_are_not_reported(
    bs: Seq<(Seq<char>, Seq<char>)>,
    readings: Seq<HotkeyReading>,
    n: nat,
)
    requires
        n <= bs.len(),
        forall|i: int, j: int|
            0 <= i < j < n && !blank(bs[i].1) && !blank(bs[j].1) ==> !collide(
                #[trigger] bs[i],
                #[trigger] bs[j],
                readings,
            ),
    ensures
        collision_warnings(bs, readings, n).len() == 0,
    decreases n,
{
    if n > 0 {
        distinct_combos_are_not_reported(bs, readings, (n - 1) as nat);
        collision_is_found(bs, readings, n - 1, 0);
    }
}

/// What validation says of a configuration: the text of its fatal problem, or
/// its warnings.
pub open spec fn validation(
    c: Config,
    scheme: Result<Seq<char>, Seq<char>>,
    w: Surroundings,
) -> Result<Seq<Seq<char>>, Seq<char>> {
    match backend_problem(c, scheme, w) {
        Some(e) => Err(e),
        None => Ok(
            model_warnings(c, w) + general_warnings(c) + command_warnings(c, w)
                + collision_warnings(all_bindings(c), w.hotkeys@, all_bindings(c).len()),
        ),
    }
}

fn warn(v: &mut Vec<ConfigWarning>, message: String)
    ensures
        warning_texts(final(v)@) == warning_texts(old(v)@).push(message@),
{
    let ghost before = warning_texts(v@);
    v.push(ConfigWarning { message });
    assert(warning_texts(v@) =~= before.push(message@));
}

/// The strings `a`, `b` and `c`, one after the other.
fn three(a: &str, b: &str, c: &str) -> (r: String)
    ensures
        r@ == a@ + b@ + c@,
{
    let mut s = a.to_owned();
    s.push_str(b);
    s.push_str(c);
    s
}

fn check_is_deepgram(b: &str) -> (r: bool)
    ensures
        r == is_deepgram(b@),
{
    same_text(b, "deepgram") || same_text(b, "deepgram-streaming")
}

fn check_is_openai(b: &str) -> (r: bool)
    ensures
        r == is_openai(b@),
{
    same_text(b, "openai") || same_text(b, "openai-realtime")
}

fn check_is_whisper(b: &str) -> (r: bool)
    ensures
        r == is_whisper(b@),
{
    same_text(b, "local-whisper") || same_text(b, "local")
}

fn check_is_sidecar(b: &str) -> (r: bool)
    ensures
        r == is_sidecar(b@),
{
    same_text(b, "asr-sidecar") || same_text(b, "asr") || same_text(b, "vibevoice")
}

fn check_is_streaming(b: &str) -> (r: bool)
    ensures
        r == is_streaming(b@),
{
    same_text(b, "deepgram-streaming") || same_text(b, "openai-realtime") || same_text(
        b,
        "openai-compatible-realtime",
    )
}

/// What is wrong with the realtime section, given what its URL's scheme is.
pub fn check_realtime(
    r: &OpenAiCompatibleRealtimeConfig,
    scheme: &Result<String, String>,
    w: &Surroundings,
) -> (p: Option<String>)
    ensures
        opt_text(p) == realtime_problem(*r, result_text(*scheme), *w),
{
    if is_blank(r.url.as_str()) {
        return Some(REALTIME_URL_MISSING.to_owned());
    }
    match scheme {
        Err(e) => {
            let mut s = REALTIME_URL_INVALID.to_owned();
            s.push_str(e.as_str());
            return Some(s);
        },
        Ok(s) => {
            if !same_text(s.as_str(), "ws") && !same_text(s.as_str(), "wss") {
                return Some(three(REALTIME_URL_SCHEME, s.as_str(), "://"));
            }
        },
    }
    if is_blank(r.model.as_str()) {
        return Some(REALTIME_MODEL_MISSING.to_owned());
    }
    match &w.profile_error {
        Some(e) => {
            let mut s = REALTIME_PROFILE_INVALID.to_owned();
            s.push_str(e.as_str());
            return Some(s);
        },
        None => {},
    }
    if !same_text(trimmed(r.profile.as_str()).as_str(), "lemonade") {
        return Some(REALTIME_PROFILE_UNSUPPORTED.to_owned());
    }
    match &w.turn_detection_error {
        Some(e) => {
            let mut s = REALTIME_TURN_DETECTION_INVALID.to_owned();
            s.push_str(e.as_str());
            Some(s)
        },
        None => None,
    }
}

/// The problem that makes the selected backend unusable, given what the
/// realtime URL's scheme is.
pub fn check_backend(c: &Config, scheme: &Result<String, String>, w: &Surroundings) -> (p: Option<
    String,
>)
    ensures
        opt_text(p) == backend_problem(*c, result_text(*scheme), *w),
{
    let b = c.general.backend.as_str();
    if check_is_deepgram(b) {
        if has_deepgram_config_key(c) || w.deepgram_env_key {
            None
        } else {
            Some(DEEPGRAM_KEY_MISSING.to_owned())
        }
    } else if same_text(b, "groq") {
        if has_groq_config_key(c) || w.groq_env_key {
            None
        } else {
            Some(GROQ_KEY_MISSING.to_owned())
        }
    } else if check_is_openai(b) {
        if has_openai_config_key(c) || w.openai_env_key {
            None
        } else {
            Some(OPENAI_KEY_MISSING.to_owned())
        }
    } else if check_is_whisper(b) || same_text(b, "local-vosk") || same_text(b, "local-parakeet") {
        None
    } else if check_is_sidecar(b) {
        let missing = match &c.asr_sidecar {
            Some(s) => is_blank(s.url.as_str()),
            None => true,
        };
        if missing {
            Some(SIDECAR_URL_MISSING.to_owned())
        } else {
            None
        }
    } else if same_text(b, "openai-compatible-realtime") {
        match &c.openai_compatible_realtime {
            None => Some(REALTIME_SECTION_MISSING.to_owned()),
            Some(r) => check_realtime(r, scheme, w),
        }
    } else {
        Some(three("Unknown backend '", b, UNKNOWN_BACKEND_HINT))
    }
}

fn warn_about_model(c: &Config, w: &Surroundings, out: &mut Vec<ConfigWarning>)
    ensures
        warning_texts(final(out)@) == warning_texts(old(out)@) + model_warnings(*c, *w),
{
    let b = c.general.backend.as_str();
    let ghost before = warning_texts(out@);
    if check_is_whisper(b) {
        if !w.model_exists {
            let path = whisper_model_path(c, &w.data_dir);
            warn(out, three(WHISPER_MODEL_MISSING, path.as_str(), WHISPER_MODEL_HINT));
        }
    } else if same_text(b, "local-vosk") {
        if !w.model_exists || vosk_model_path(c).as_str().is_empty() {
            warn(out, VOSK_MODEL_MISSING.to_owned());
        }
    } else if same_text(b, "local-parakeet") {
        if !w.model_exists || parakeet_model_path(c).as_str().is_empty() {
            warn(out, PARAKEET_MODEL_MISSING.to_owned());
        }
    }
    proof {
        reveal_strlit("local-vosk");
        reveal_strlit("local-parakeet");
        reveal_strlit("local-whisper");
        reveal_strlit("local");
        assert("local-vosk"@.len() != "local-parakeet"@.len());
        assert("local-vosk"@.len() != "local-whisper"@.len());
        assert("local-parakeet"@.len() != "local-whisper"@.len());
        assert(warning_texts(out@) =~= before + model_warnings(*c, *w));
    }
}

fn warn_about_general(c: &Config, out: &mut Vec<ConfigWarning>)
    ensures
        warning_texts(final(out)@) == warning_texts(old(out)@) + general_warnings(*c),
{
    let b = c.general.backend.as_str();
    let ghost before = warning_texts(out@);
    if c.general.silence_timeout_ms == 0 {
        warn(out, NO_SILENCE_TIMEOUT.to_owned());
    }
    if c.input.paste && (check_is_streaming(b) || check_is_whisper(b)) {
        warn(out, three(PASTE_HEAD, b, PASTE_TAIL));
    }
    assert(warning_texts(out@) =~= before + general_warnings(*c));
}

fn whisper_model_path(c: &Config, data_dir: &Option<String>) -> (r: String)
    ensures
        r@ == whisper_model(*c, opt_text(*data_dir)),
{
    match &c.local_whisper {
        Some(l) => l.model_path.clone(),
        None => {
            let dir: &str = match data_dir {
                Some(d) => d.as_str(),
                None => "~/.local/share",
            };
            join_path(dir, "whisrs/models/ggml-base.en.bin")
        },
    }
}

fn vosk_model_path(c: &Config) -> (r: String)
    ensures
        r@ == vosk_model(*c),
{
    match &c.local_vosk {
        Some(l) => l.model_path.clone(),
        None => "".to_owned(),
    }
}

fn parakeet_model_path(c: &Config) -> (r: String)
    ensures
        r@ == parakeet_model(*c),
{
    match &c.local_parakeet {
        Some(l) => l.model_path.clone(),
        None => "".to_owned(),
    }
}

fn name_seen(commands: &[LlmCommandConfig], i: usize) -> (r: bool)
    requires
        i < commands@.len(),
    ensures
        r == (exists|j: int|
            0 <= j < i && (#[trigger] commands@[j]).name@ == commands@[i as int].name@),
{
    let mut j: usize = 0;
    while j < i
        invariant
            j <= i < commands@.len(),
            forall|k: int|
                0 <= k < j ==> (#[trigger] commands@[k]).name@ != commands@[i as int].name@,
        decreases i - j,
    {
        if same_text(commands[j].name.as_str(), commands[i].name.as_str()) {
            return true;
        }
        j += 1;
    }
    false
}

fn warn_about_entry(
    commands: &[LlmCommandConfig],
    i: usize,
    readings: &[HotkeyReading],
    out: &mut Vec<ConfigWarning>,
)
    requires
        i < commands@.len(),
    ensures
        warning_texts(final(out)@) == warning_texts(old(out)@) + (name_warnings(
            commands@,
            i as int,
        ) + hotkey_warnings(commands@[i as int], readings@) + set_hotkey_warnings(
            commands@[i as int],
            readings@,
        ) + instruction_warnings(commands@[i as int])),
{
    let e = &commands[i];
    let ghost w0 = warning_texts(out@);
    if is_blank(e.name.as_str()) {
        warn(out, COMMAND_NAME_EMPTY.to_owned());
    } else if name_seen(commands, i) {
        warn(out, three("llm_commands has a duplicate name: '", e.name.as_str(), "'"));
    }
    let ghost w1 = warning_texts(out@);
    assert(w1 =~= w0 + name_warnings(commands@, i as int));
    if is_blank(e.hotkey.as_str()) {
        warn(out, three("llm_commands '", e.name.as_str(), "' has an empty hotkey"));
    } else {
        match find_reading(readings, e.hotkey.as_str()) {
            Some(Err(err)) => {
                let mut s = three(
                    "llm_commands '",
                    e.name.as_str(),
                    "' has an invalid hotkey '",
                );
                s.push_str(e.hotkey.as_str());
                s.push_str("': ");
                s.push_str(err.as_str());
                warn(out, s);
            },
            _ => {},
        }
    }
    let ghost w2 = warning_texts(out@);
    assert(w2 =~= w1 + hotkey_warnings(*e, readings@));
    match &e.set_hotkey {
        Some(s) => {
            let mut invalid = false;
            match find_reading(readings, s.as_str()) {
                Some(Err(err)) => {
                    let mut m = three(
                        "llm_commands '",
                        e.name.as_str(),
                        "' has an invalid set_hotkey '",
                    );
                    m.push_str(s.as_str());
                    m.push_str("': ");
                    m.push_str(err.as_str());
                    warn(out, m);
                    invalid = true;
                },
                _ => {},
            }
            if !invalid && same_text(s.as_str(), e.hotkey.as_str()) {
                let mut m = three(
                    "llm_commands '",
                    e.name.as_str(),
                    "' has set_hotkey equal to hotkey '",
                );
                m.push_str(e.hotkey.as_str());
                m.push_str("' — one press can't both run and reprogram");
                warn(out, m);
            }
        },
        None => {},
    }
    let ghost w3 = warning_texts(out@);
    assert(w3 =~= w2 + set_hotkey_warnings(*e, readings@));
    if is_blank(e.instruction.as_str()) {
        warn(out, three("llm_commands '", e.name.as_str(), "' has an empty instruction"));
    }
    assert(warning_texts(out@) =~= w3 + instruction_warnings(*e));
    assert(warning_texts(out@) =~= w0 + (name_warnings(commands@, i as int) + hotkey_warnings(
        *e,
        readings@,
    ) + set_hotkey_warnings(*e, readings@) + instruction_warnings(*e)));
}

fn warn_about_commands(c: &Config, w: &Surroundings, out: &mut Vec<ConfigWarning>)
    ensures
        warning_texts(final(out)@) == warning_texts(old(out)@) + command_warnings(*c, *w),
{
    let b = c.general.backend.as_str();
    let ghost w0 = warning_texts(out@);
    if c.llm_commands.len() == 0 {
        assert(w0 =~= w0 + command_warnings(*c, *w));
        return;
    }
    if c.llm.is_none() {
        warn(out, NO_LLM_SECTION.to_owned());
    }
    if check_is_streaming(b) {
        warn(out, three(ONE_SHOT_HEAD, b, ONE_SHOT_TAIL));
    }
    let ghost head = warning_texts(out@);
    let mut i: usize = 0;
    assert(head =~= head + entry_warnings(c.llm_commands@, w.hotkeys@, 0));
    while i < c.llm_commands.len()
        invariant
            i <= c.llm_commands@.len(),
            warning_texts(out@) == head + entry_warnings(c.llm_commands@, w.hotkeys@, i as nat),
        decreases c.llm_commands@.len() - i,
    {
        let ghost before = entry_warnings(c.llm_commands@, w.hotkeys@, i as nat);
        warn_about_entry(&c.llm_commands, i, &w.hotkeys, out);
        i += 1;
        assert(warning_texts(out@) =~= head + entry_warnings(
            c.llm_commands@,
            w.hotkeys@,
            i as nat,
        ));
    }
    assert(warning_texts(out@) =~= w0 + command_warnings(*c, *w));
}

fn bind(out: &mut Vec<Binding>, source: String, spec: &str)
    ensures
        binding_views(final(out)@) == binding_views(old(out)@).push((source@, spec@)),
{
    let ghost before = binding_views(out@);
    out.push(Binding { source, spec: spec.to_owned() });
    assert(binding_views(out@) =~= before.push((source@, spec@)));
}

fn bind_opt(out: &mut Vec<Binding>, source: &str, spec: &Option<String>)
    ensures
        binding_views(final(out)@) == binding_views(old(out)@) + bound(source@, *spec),
{
    let ghost before = binding_views(out@);
    match spec {
        Some(s) => bind(out, source.to_owned(), s.as_str()),
        None => {},
    }
    assert(binding_views(out@) =~= before + bound(source@, *spec));
}

fn bindings(c: &Config) -> (out: Vec<Binding>)
    ensures
        binding_views(out@) == all_bindings(*c),
{
    let mut out: Vec<Binding> = Vec::new();
    assert(binding_views(out@) =~= seq![]);
    match &c.hotkeys {
        Some(h) => {
            bind_opt(&mut out, "[hotkeys] toggle", &h.toggle);
            bind_opt(&mut out, "[hotkeys] cancel", &h.cancel);
            bind_opt(&mut out, "[hotkeys] command", &h.command);
            bind_opt(&mut out, "[hotkeys] speak", &h.speak);
            assert(binding_views(out@) =~= own_bindings(*h));
        },
        None => {},
    }
    let ghost own = binding_views(out@);
    let mut i: usize = 0;
    assert(own =~= own + command_bindings(c.llm_commands@, 0));
    while i < c.llm_commands.len()
        invariant
            i <= c.llm_commands@.len(),
            binding_views(out@) == own + command_bindings(c.llm_commands@, i as nat),
        decreases c.llm_commands@.len() - i,
    {
        let e = &c.llm_commands[i];
        let ghost before = command_bindings(c.llm_commands@, i as nat);
        bind(&mut out, three("llm_commands '", e.name.as_str(), "' hotkey"), e.hotkey.as_str());
        match &e.set_hotkey {
            Some(s) => {
                if !same_text(s.as_str(), e.hotkey.as_str()) {
                    bind(
                        &mut out,
                        three("llm_commands '", e.name.as_str(), "' set_hotkey"),
                        s.as_str(),
                    );
                }
            },
            None => {},
        }
        i += 1;
        assert(binding_views(out@) =~= own + command_bindings(c.llm_commands@, i as nat));
    }
    out
}

fn find_combo<'a>(b: &Binding, readings: &'a [HotkeyReading]) -> (r: Option<&'a Hotkey>)
    ensures
        match r {
            Some(h) => combo(binding_view(*b), readings@) == Some(*h),
            None => combo(binding_view(*b), readings@) is None,
        },
{
    if is_blank(b.spec.as_str()) {
        return None;
    }
    match find_reading(readings, b.spec.as_str()) {
        Some(Ok(h)) => Some(h),
        _ => None,
    }
}

fn find_collision(bs: &[Binding], readings: &[HotkeyReading], i: usize) -> (r: Option<usize>)
    requires
        i < bs@.len(),
    ensures
        match r {
            Some(j) => j < i && first_collision(binding_views(bs@), readings@, i as int, 0) == Some(
                j as int,
            ),
            None => first_collision(binding_views(bs@), readings@, i as int, 0) is None,
        },
{
    let mut j: usize = 0;
    while j < i
        invariant
            j <= i < bs@.len(),
            first_collision(binding_views(bs@), readings@, i as int, 0) == first_collision(
                binding_views(bs@),
                readings@,
                i as int,
                j as int,
            ),
        decreases i - j,
    {
        let hit = match (find_combo(&bs[j], readings), find_combo(&bs[i], readings)) {
            (Some(a), Some(b)) => is_same_combo(a, b),
            _ => false,
        };
        assert(hit == collide(
            binding_views(bs@)[j as int],
            binding_views(bs@)[i as int],
            readings@,
        ));
        if hit {
            return Some(j);
        }
        j += 1;
    }
    None
}

fn warn_about_collisions(bs: &[Binding], readings: &[HotkeyReading], out: &mut Vec<ConfigWarning>)
    ensures
        warning_texts(final(out)@) == warning_texts(old(out)@) + collision_warnings(
            binding_views(bs@),
            readings@,
            bs@.len(),
        ),
{
    let ghost w0 = warning_texts(out@);
    let ghost views = binding_views(bs@);
    let mut i: usize = 0;
    assert(w0 =~= w0 + collision_warnings(views, readings@, 0));
    while i < bs.len()
        invariant
            i <= bs@.len(),
            views == binding_views(bs@),
            warning_texts(out@) == w0 + collision_warnings(views, readings@, i as nat),
        decreases bs@.len() - i,
    {
        match find_collision(bs, readings, i) {
            Some(j) => {
                assert(views[j as int] == binding_view(bs@[j as int]));
                assert(views[i as int] == binding_view(bs@[i as int]));
                let mut s = three(
                    "duplicate hotkey binding: ",
                    bs[j].source.as_str(),
                    " ('",
                );
                s.push_str(bs[j].spec.as_str());
                s.push_str("') and ");
                s.push_str(bs[i].source.as_str());
                s.push_str(" ('");
                s.push_str(bs[i].spec.as_str());
                s.push_str(
                    "') use the same combo — one press fires both actions; rebind one of them",
                );
                warn(out, s);
            },
            None => {},
        }
        i += 1;
        assert(warning_texts(out@) =~= w0 + collision_warnings(views, readings@, i as nat));
    }
}

fn push_present(out: &mut Vec<String>, v: &Option<String>)
    ensures
        texts(final(out)@) == texts(old(out)@) + present(*v),
{
    let ghost before = texts(out@);
    match v {
        Some(s) => out.push(s.clone()),
        None => {},
    }
    assert(texts(out@) =~= before + present(*v));
}

impl Config {
    /// Every hotkey spec of the configuration.
    pub fn hotkey_specs(&self) -> (out: Vec<String>)
        ensures
            texts(out@) == all_specs(*self),
    {
        let mut out: Vec<String> = Vec::new();
        assert(texts(out@) =~= seq![]);
        match &self.hotkeys {
            Some(h) => {
                push_present(&mut out, &h.toggle);
                push_present(&mut out, &h.cancel);
                push_present(&mut out, &h.command);
                push_present(&mut out, &h.speak);
                assert(texts(out@) =~= present(h.toggle) + present(h.cancel) + present(h.command)
                    + present(h.speak));
            },
            None => {},
        }
        let ghost own = texts(out@);
        let mut i: usize = 0;
        assert(own =~= own + command_specs(self.llm_commands@, 0));
        while i < self.llm_commands.len()
            invariant
                i <= self.llm_commands@.len(),
                texts(out@) == own + command_specs(self.llm_commands@, i as nat),
            decreases self.llm_commands@.len() - i,
        {
            let e = &self.llm_commands[i];
            let ghost before = texts(out@);
            out.push(e.hotkey.clone());
            assert(texts(out@) =~= before.push(e.hotkey@));
            push_present(&mut out, &e.set_hotkey);
            i += 1;
            assert(texts(out@) =~= own + command_specs(self.llm_commands@, i as nat));
        }
        out
    }

    /// The model that a local backend loads, below `data_dir` where the
    /// configuration names none. `None` for the other backends.
    pub fn model_path(&self, data_dir: &Option<String>) -> (r: Option<String>)
        ensures
            opt_text(r) == ({
                let b = self.general.backend@;
                if is_whisper(b) {
                    Some(whisper_model(*self, opt_text(*data_dir)))
                } else if b == "local-vosk"@ {
                    Some(vosk_model(*self))
                } else if b == "local-parakeet"@ {
                    Some(parakeet_model(*self))
                } else {
                    None
                }
            }),
    {
        let b = self.general.backend.as_str();
        if check_is_whisper(b) {
            Some(whisper_model_path(self, data_dir))
        } else if same_text(b, "local-vosk") {
            Some(vosk_model_path(self))
        } else if same_text(b, "local-parakeet") {
            Some(parakeet_model_path(self))
        } else {
            None
        }
    }

    /// Validate the configuration and return a list of warnings, given what
    /// the realtime URL's scheme is.
    pub fn validate_with_scheme(&self, scheme: &Result<String, String>, w: &Surroundings) -> (r:
        Result<Vec<ConfigWarning>, WhisrsError>)
        requires
            readings_cover(w.hotkeys@, *self),
        ensures
            match r {
                Ok(v) => validation(*self, result_text(*scheme), *w) == Ok::<
                    Seq<Seq<char>>,
                    Seq<char>,
                >(warning_texts(v@)),
                Err(e) => e is Config && validation(*self, result_text(*scheme), *w) == Err::<
                    Seq<Seq<char>>,
                    Seq<char>,
                >(e.text()),
            },
    {
        match check_backend(self, scheme, w) {
            Some(e) => return Err(WhisrsError::Config(e)),
            None => {},
        }
        let mut out: Vec<ConfigWarning> = Vec::new();
        assert(warning_texts(out@) =~= seq![]);
        warn_about_model(self, w, &mut out);
        warn_about_general(self, &mut out);
        warn_about_commands(self, w, &mut out);
        let bs = bindings(self);
        assert(bs@.len() == all_bindings(*self).len());
        warn_about_collisions(&bs, &w.hotkeys, &mut out);
        assert(warning_texts(out@) =~= model_warnings(*self, *w) + general_warnings(*self)
            + command_warnings(*self, *w) + collision_warnings(
            all_bindings(*self),
            w.hotkeys@,
            all_bindings(*self).len(),
        ));
        Ok(out)
    }

    /// Validate the configuration and return a list of warnings.
    ///
    /// Returns `Err` for fatal issues (e.g., no backend configured).
    /// Returns `Ok(warnings)` with non-fatal warnings.
    pub fn validate(&self, w: &Surroundings) -> (r: Result<Vec<ConfigWarning>, WhisrsError>)
        requires
            readings_cover(w.hotkeys@, *self),
        ensures
            ({
                let scheme = match self.openai_compatible_realtime {
                    Some(s) => parsed_url_scheme(trim(s.url@)),
                    None => Ok(""@),
                };
                match r {
                    Ok(v) => validation(*self, scheme, *w) == Ok::<Seq<Seq<char>>, Seq<char>>(
                        warning_texts(v@),
                    ),
                    Err(e) => e is Config && validation(*self, scheme, *w) == Err::<
                        Seq<Seq<char>>,
                        Seq<char>,
                    >(e.text()),
                }
            }),
    {
        let scheme: Result<String, String> = match &self.openai_compatible_realtime {
            Some(s) => url_scheme(trimmed(s.url.as_str()).as_str()),
            None => Ok("".to_owned()),
        };
        self.validate_with_scheme(&scheme, w)
    }

    /// Check if any transcription backend is configured, in the file or, for
    /// the cloud backends, by a key in the environment.
    pub fn has_any_backend_configured(&self, w: &Surroundings) -> (r: bool)
        ensures
            r == {
                ||| deepgram_config_key(*self) || w.deepgram_env_key
                ||| groq_config_key(*self) || w.groq_env_key
                ||| openai_config_key(*self) || w.openai_env_key
                ||| self.local_whisper is Some
                ||| self.local_vosk is Some
                ||| self.local_parakeet is Some
                ||| self.asr_sidecar matches Some(s) && !blank(s.url@)
                ||| self.openai_compatible_realtime matches Some(s) && !blank(s.url@)
            },
    {
        let sidecar = match &self.asr_sidecar {
            Some(s) => !is_blank(s.url.as_str()),
            None => false,
        };
        let realtime = match &self.openai_compatible_realtime {
            Some(s) => !is_blank(s.url.as_str()),
            None => false,
        };
        has_deepgram_config_key(self) || w.deepgram_env_key || has_groq_config_key(self)
            || w.groq_env_key || has_openai_config_key(self) || w.openai_env_key
            || self.local_whisper.is_some() || self.local_vosk.is_some()
            || self.local_parakeet.is_some() || sidecar || realtime
    }
}

} // verus!
