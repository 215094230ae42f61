//! Configuration structs, their defaults, and the small rules on single
//! values: overlay dimensions and hex colors.

use crate::text::{is_white, opt_text, to_chars, trim, trimmed_chars};
use crate::text_laws::{all_white, trimming_gives_what_stands_between};
use vstd::prelude::*;

verus! {

/// Top-level configuration, as `config.toml` holds it.
#[derive(Debug, Clone)]
pub struct Config {
    pub general: GeneralConfig,
    pub audio: AudioConfig,
    pub input: InputConfig,
    pub deepgram: Option<DeepgramConfig>,
    pub groq: Option<GroqConfig>,
    pub openai: Option<OpenAiConfig>,
    pub local_whisper: Option<LocalWhisperConfig>,
    pub local_vosk: Option<LocalVoskConfig>,
    pub local_parakeet: Option<LocalParakeetConfig>,
    pub asr_sidecar: Option<AsrSidecarConfig>,
    pub openai_compatible_realtime: Option<OpenAiCompatibleRealtimeConfig>,
    /// LLM configuration for command mode (text rewriting).
    pub llm: Option<LlmConfig>,
    /// Text-to-speech configuration for read-selection-aloud.
    pub tts: Option<TtsConfig>,
    /// Global hotkey configuration.
    pub hotkeys: Option<HotkeyConfig>,
    /// Overlay appearance (theme, dimensions, optional custom colors).
    pub overlay: Option<OverlayConfig>,
    /// Commands run around a recording.
    pub hooks: Option<HooksConfig>,
    /// Named custom LLM commands, each with its own hotkey.
    pub llm_commands: Vec<LlmCommandConfig>,
}

/// Global hotkey configuration: key combos that trigger actions.
#[derive(Debug, Clone)]
pub struct HotkeyConfig {
    /// Hotkey to toggle recording (e.g. "Super+Shift+D").
    pub toggle: Option<String>,
    /// Hotkey to cancel recording (e.g. "Super+Shift+Escape").
    pub cancel: Option<String>,
    /// Hotkey to start command mode (e.g. "Super+Shift+C").
    pub command: Option<String>,
    /// Hotkey to read the selected text aloud (e.g. "Super+Shift+R").
    pub speak: Option<String>,
}

impl Default for HotkeyConfig {
    fn default() -> (r: Self)
        ensures
            r == (HotkeyConfig { toggle: None, cancel: None, command: None, speak: None }),
    {
        HotkeyConfig { toggle: None, cancel: None, command: None, speak: None }
    }
}

/// Visual configuration for the bottom recording overlay.
///
/// The shape is clamped tight (90–120 × 28–40) to keep the tapered bar layout
/// legible. Themes pick the colors; if `colors` is set, those override the
/// theme.
#[derive(Debug, Clone)]
pub struct OverlayConfig {
    /// Theme name: `"ember"` (default), `"carbon"`, `"cyan"`, or `"custom"`.
    pub theme: String,
    /// Pill width in pixels (clamped to 90..=120).
    pub width: u32,
    /// Pill height in pixels (clamped to 28..=40).
    pub height: u32,
    /// Custom color overrides; honored when `theme = "custom"`.
    /// Hex strings: `#RGB`, `#RRGGBB`, or `#RRGGBBAA`.
    pub colors: Option<OverlayColors>,
}

/// Custom colors of the overlay, as hex strings.
#[derive(Debug, Clone)]
pub struct OverlayColors {
    pub background: Option<String>,
    pub ring: Option<String>,
    pub recording: Option<String>,
    pub transcribing: Option<String>,
    /// Override color for the read-aloud "speaking" bars.
    pub speaking: Option<String>,
    pub glow: Option<String>,
}

/// `x` moved to the nearest value of `lo..=hi`.
pub open spec fn clamped(x: int, lo: int, hi: int) -> int {
    if x < lo {
        lo
    } else if x > hi {
        hi
    } else {
        x
    }
}

fn clamp_u32(x: u32, lo: u32, hi: u32) -> (r: u32)
    requires
        lo <= hi,
    ensures
        r == clamped(x as int, lo as int, hi as int),
{
    if x < lo {
        lo
    } else if x > hi {
        hi
    } else {
        x
    }
}

/// The theme of an overlay that names none.
pub fn default_overlay_theme() -> (r: String)
    ensures
        r@ == "ember"@,
{
    "ember".to_owned()
}

/// The width of an overlay that names none.
pub fn default_overlay_width() -> (r: u32)
    ensures
        r == 100,
{
    100
}

/// The height of an overlay that names none.
pub fn default_overlay_height() -> (r: u32)
    ensures
        r == 40,
{
    40
}

impl Default for OverlayConfig {
    fn default() -> (r: Self)
        ensures
            r.theme@ == "ember"@,
            r.width == 100,
            r.height == 40,
            r.colors is None,
    {
        OverlayConfig {
            theme: default_overlay_theme(),
            width: default_overlay_width(),
            height: default_overlay_height(),
            colors: None,
        }
    }
}

impl OverlayConfig {
    /// Width clamped to the supported range. Out-of-range values fall back
    /// silently to the nearest bound.
    pub fn clamped_width(&self) -> (r: u32)
        ensures
            r == clamped(self.width as int, 90, 120),
    {
        clamp_u32(self.width, 90, 120)
    }

    /// Height clamped to the supported range, in the same way.
    pub fn clamped_height(&self) -> (r: u32)
        ensures
            r == clamped(self.height as int, 28, 40),
    {
        clamp_u32(self.height, 28, 40)
    }
}

/// The value of one hexadecimal digit.
pub open spec fn hex_digit(c: char) -> Option<u8> {
    if '0' <= c <= '9' {
        Some((c as u32 - '0' as u32) as u8)
    } else if 'a' <= c <= 'f' {
        Some((c as u32 - 'a' as u32 + 10) as u8)
    } else if 'A' <= c <= 'F' {
        Some((c as u32 - 'A' as u32 + 10) as u8)
    } else {
        None
    }
}

/// The value of two hexadecimal digits read as one byte.
pub open spec fn hex_pair(a: char, b: char) -> Option<u8> {
    match (hex_digit(a), hex_digit(b)) {
        (Some(x), Some(y)) => Some((16 * x + y) as u8),
        _ => None,
    }
}

/// `s` without its leading number signs.
pub open spec fn strip_hashes(s: Seq<char>) -> Seq<char>
    decreases s.len(),
{
    if s.len() > 0 && s[0] == '#' {
        strip_hashes(s.drop_first())
    } else {
        s
    }
}

/// The bytes `[A, R, G, B]` of a hex color, with full opacity where the color
/// names none.
pub open spec fn hex_color(s: Seq<char>) -> Option<Seq<u8>> {
    let t = strip_hashes(trim(s));
    if t.len() == 3 {
        match (hex_pair(t[0], t[0]), hex_pair(t[1], t[1]), hex_pair(t[2], t[2])) {
            (Some(r), Some(g), Some(b)) => Some(seq![255u8, r, g, b]),
            _ => None,
        }
    } else if t.len() == 6 {
        match (hex_pair(t[0], t[1]), hex_pair(t[2], t[3]), hex_pair(t[4], t[5])) {
            (Some(r), Some(g), Some(b)) => Some(seq![255u8, r, g, b]),
            _ => None,
        }
    } else if t.len() == 8 {
        match (
            hex_pair(t[0], t[1]),
            hex_pair(t[2], t[3]),
            hex_pair(t[4], t[5]),
            hex_pair(t[6], t[7]),
        ) {
            (Some(r), Some(g), Some(b), Some(a)) => Some(seq![a, r, g, b]),
            _ => None,
        }
    } else {
        None
    }
}

/// Whether a text is written like a hex color: 3, 6 or 8 hexadecimal digits
/// after any number signs.
pub open spec fn is_hex_color(s: Seq<char>) -> bool {
    let t = strip_hashes(trim(s));
    &&& t.len() == 3 || t.len() == 6 || t.len() == 8
    &&& forall|i: int| 0 <= i < t.len() ==> hex_digit(#[trigger] t[i]) is Some
}

fn hex_digit_value(c: char) -> (r: Option<u8>)
    ensures
        r == hex_digit(c),
        r matches Some(v) ==> v < 16,
{
    if '0' <= c && c <= '9' {
        Some((c as u32 - '0' as u32) as u8)
    } else if 'a' <= c && c <= 'f' {
        Some((c as u32 - 'a' as u32 + 10) as u8)
    } else if 'A' <= c && c <= 'F' {
        Some((c as u32 - 'A' as u32 + 10) as u8)
    } else {
        None
    }
}

fn hex_pair_value(a: char, b: char) -> (r: Option<u8>)
    ensures
        r == hex_pair(a, b),
{
    match (hex_digit_value(a), hex_digit_value(b)) {
        (Some(x), Some(y)) => Some(16 * x + y),
        _ => None,
    }
}

/// Parse a hex color string into ARGB bytes `[A, R, G, B]`. Accepts `#RGB`,
/// `#RRGGBB`, `#RRGGBBAA`. Returns `None` for malformed input so callers can
/// fall back to a theme default.
pub fn parse_hex_color(s: &str) -> (r: Option<[u8; 4]>)
    ensures
        match r {
            Some(v) => hex_color(s@) == Some(v@),
            None => hex_color(s@) is None,
        },
        r is Some <==> is_hex_color(s@),
{
    let v = trimmed_chars(&to_chars(s));
    let mut i: usize = 0;
    assert(v@.skip(0) =~= v@);
    while i < v.len() && v[i] == '#'
        invariant
            i <= v@.len(),
            strip_hashes(v@) == strip_hashes(v@.skip(i as int)),
        decreases v@.len() - i,
    {
        assert(v@.skip(i as int)[0] == v@[i as int]);
        assert(v@.skip(i as int).drop_first() =~= v@.skip(i + 1));
        i += 1;
    }
    let ghost t = v@.skip(i as int);
    assert(t.len() > 0 ==> t[0] == v@[i as int]);
    assert(strip_hashes(trim(s@)) == t);
    let n: usize = v.len() - i;
    if n == 3 {
        match (
            hex_pair_value(v[i], v[i]),
            hex_pair_value(v[i + 1], v[i + 1]),
            hex_pair_value(v[i + 2], v[i + 2]),
        ) {
            (Some(r), Some(g), Some(b)) => {
                let out: [u8; 4] = [255, r, g, b];
                assert(out@ =~= seq![255u8, r, g, b]);
                Some(out)
            },
            _ => None,
        }
    } else if n == 6 {
        match (
            hex_pair_value(v[i], v[i + 1]),
            hex_pair_value(v[i + 2], v[i + 3]),
            hex_pair_value(v[i + 4], v[i + 5]),
        ) {
            (Some(r), Some(g), Some(b)) => {
                let out: [u8; 4] = [255, r, g, b];
                assert(out@ =~= seq![255u8, r, g, b]);
                Some(out)
            },
            _ => None,
        }
    } else if n == 8 {
        match (
            hex_pair_value(v[i], v[i + 1]),
            hex_pair_value(v[i + 2], v[i + 3]),
            hex_pair_value(v[i + 4], v[i + 5]),
            hex_pair_value(v[i + 6], v[i + 7]),
        ) {
            (Some(r), Some(g), Some(b), Some(a)) => {
                let out: [u8; 4] = [a, r, g, b];
                assert(out@ =~= seq![a, r, g, b]);
                Some(out)
            },
            _ => None,
        }
    } else {
        None
    }
}

/// Settings of dictation as a whole.
#[derive(Debug, Clone)]
pub struct GeneralConfig {
    pub backend: String,
    pub language: String,
    pub silence_timeout_ms: u64,
    pub notify: bool,
    /// Enable automatic filler word removal from transcriptions.
    pub remove_filler_words: bool,
    /// Custom filler words to remove. When empty, uses the built-in list.
    pub filler_words: Vec<String>,
    /// Enable audio feedback (tones on start/stop/done).
    pub audio_feedback: bool,
    /// Volume for audio feedback (0 to 1), as the bits of an IEEE 754 single.
    pub audio_feedback_volume: u32,
    /// Custom vocabulary: domain-specific terms, names, acronyms, passed as a
    /// prompt hint to transcription backends.
    pub vocabulary: Vec<String>,
    /// Free-form prompt prepended to the vocabulary list before being sent to
    /// the transcription backend.
    pub prompt: Option<String>,
    /// Enable system tray icon.
    pub tray: bool,
    /// Enable bottom-screen recording overlay.
    pub overlay: bool,
}

impl Default for GeneralConfig {
    fn default() -> (r: Self)
        ensures
            r.backend@ == "groq"@,
            r.language@ == "en"@,
            r.silence_timeout_ms == 2000,
            r.notify,
            !r.remove_filler_words,
            r.filler_words@ == Seq::<String>::empty(),
            !r.audio_feedback,
            r.audio_feedback_volume == HALF_VOLUME_BITS,
            r.vocabulary@ == Seq::<String>::empty(),
            r.prompt is None,
            r.tray,
            !r.overlay,
    {
        GeneralConfig {
            backend: default_backend(),
            language: default_language(),
            silence_timeout_ms: default_silence_timeout(),
            notify: default_true(),
            remove_filler_words: false,
            filler_words: Vec::new(),
            audio_feedback: false,
            audio_feedback_volume: default_audio_feedback_volume(),
            vocabulary: Vec::new(),
            prompt: None,
            tray: default_true(),
            overlay: false,
        }
    }
}

/// The input device.
#[derive(Debug, Clone)]
pub struct AudioConfig {
    pub device: String,
}

impl Default for AudioConfig {
    fn default() -> (r: Self)
        ensures
            r.device@ == "default"@,
    {
        AudioConfig { device: default_device() }
    }
}

/// Selects which keyboard-injection backend the daemon uses to type text.
#[derive(Debug, Clone, Copy, PartialEq, Eq, Structural)]
pub enum InjectorBackend {
    /// Use the Wayland virtual keyboard when the compositor supports it,
    /// otherwise fall back to evdev/uinput.
    Auto,
    /// Force the evdev/uinput backend (layout-dependent on Wayland).
    Uinput,
    /// Force the Wayland virtual keyboard (errors at startup if unsupported).
    WaylandVk,
}

impl Default for InjectorBackend {
    fn default() -> (r: Self)
        ensures
            r == InjectorBackend::Auto,
    {
        InjectorBackend::Auto
    }
}

impl InjectorBackend {
    /// The name of the backend in `config.toml`.
    pub open spec fn spec_name(self) -> Seq<char> {
        match self {
            InjectorBackend::Auto => "auto"@,
            InjectorBackend::Uinput => "uinput"@,
            InjectorBackend::WaylandVk => "wayland-vk"@,
        }
    }

    /// The name of the backend in `config.toml`.
    pub fn name(self) -> (r: &'static str)
        ensures
            r@ == self.spec_name(),
    {
        match self {
            InjectorBackend::Auto => "auto",
            InjectorBackend::Uinput => "uinput",
            InjectorBackend::WaylandVk => "wayland-vk",
        }
    }
}

/// Keyboard injection tuning.
#[derive(Debug, Clone)]
pub struct InputConfig {
    /// Delay between individual key events, in milliseconds.
    pub key_delay_ms: u64,
    /// Keyboard-injection backend.
    pub backend: InjectorBackend,
    /// Inject text by clipboard paste (Ctrl+V) instead of typing keystrokes.
    pub paste: bool,
    /// Keep the transcript in the clipboard too, alongside typing it.
    pub clipboard_fallback: bool,
    /// Only copy the text to the clipboard; type nothing.
    pub clipboard_only: bool,
}

impl Default for InputConfig {
    fn default() -> (r: Self)
        ensures
            r == (InputConfig {
                key_delay_ms: 2,
                backend: InjectorBackend::Auto,
                paste: false,
                clipboard_fallback: false,
                clipboard_only: false,
            }),
    {
        InputConfig {
            key_delay_ms: default_key_delay_ms(),
            backend: InjectorBackend::Auto,
            paste: false,
            clipboard_fallback: false,
            clipboard_only: false,
        }
    }
}

/// Access to Deepgram.
#[derive(Debug, Clone)]
pub struct DeepgramConfig {
    pub api_key: String,
    pub model: String,
}

/// Access to Groq.
#[derive(Debug, Clone)]
pub struct GroqConfig {
    pub api_key: String,
    pub model: String,
}

/// Access to OpenAI.
#[derive(Debug, Clone)]
pub struct OpenAiConfig {
    pub api_key: String,
    pub model: String,
}

/// LLM settings for command mode.
#[derive(Debug, Clone)]
pub struct LlmConfig {
    pub api_key: String,
    pub model: String,
    pub api_url: String,
}

impl Default for LlmConfig {
    fn default() -> (r: Self)
        ensures
            r.api_key@ == ""@,
            r.model@ == "gpt-4o-mini"@,
            r.api_url@ == "https://api.openai.com/v1/chat/completions"@,
    {
        LlmConfig {
            api_key: "".to_owned(),
            model: "gpt-4o-mini".to_owned(),
            api_url: "https://api.openai.com/v1/chat/completions".to_owned(),
        }
    }
}

/// One named LLM command with its own hotkey.
#[derive(Debug, Clone)]
pub struct LlmCommandConfig {
    pub name: String,
    pub hotkey: String,
    /// Hotkey that reprograms the command from the selected text.
    pub set_hotkey: Option<String>,
    pub instruction: String,
}

/// Commands run around a recording.
#[derive(Debug, Clone)]
pub struct HooksConfig {
    /// Pause playing media while recording.
    pub media_auto_pause: bool,
    pub on_record_start: Option<String>,
    pub on_record_stop: Option<String>,
}

/// Text-to-speech configuration for the read-selection-aloud feature.
#[derive(Debug, Clone)]
pub struct TtsConfig {
    /// Whether read-selection-aloud is enabled.
    pub enabled: bool,
    /// TTS backend: `"groq"` (default), `"openai"`, `"tts-sidecar"`, or
    /// `"deepgram"`.
    pub backend: String,
    /// TTS model identifier; each backend has its own default.
    pub model: Option<String>,
    /// Voice name; each backend has its own default.
    pub voice: Option<String>,
    /// Audio response format requested from the API.
    pub response_format: String,
    /// Optional dedicated API key; falls back to the backend's key.
    pub api_key: Option<String>,
    /// Endpoint URL for the `tts-sidecar` backend.
    pub url: Option<String>,
}

impl Default for TtsConfig {
    fn default() -> (r: Self)
        ensures
            !r.enabled,
            r.backend@ == "groq"@,
            r.model is None,
            r.voice is None,
            r.response_format@ == "wav"@,
            r.api_key is None,
            r.url is None,
    {
        TtsConfig {
            enabled: false,
            backend: default_tts_backend(),
            model: None,
            voice: None,
            response_format: default_tts_response_format(),
            api_key: None,
            url: None,
        }
    }
}

/// The local whisper.cpp backend.
#[derive(Debug, Clone)]
pub struct LocalWhisperConfig {
    pub model_path: String,
    /// Streaming segmentation strategy: `"silence"` (default) or `"window"`.
    pub segmentation: String,
    /// Milliseconds of continuous silence that end a phrase in `"silence"`
    /// segmentation mode.
    pub phrase_silence_ms: u64,
}

impl LocalWhisperConfig {
    /// Config for `model_path` with default segmentation settings.
    pub fn new(model_path: String) -> (r: Self)
        ensures
            r.model_path == model_path,
            r.segmentation@ == "silence"@,
            r.phrase_silence_ms == 400,
    {
        LocalWhisperConfig {
            model_path,
            segmentation: default_local_whisper_segmentation(),
            phrase_silence_ms: default_phrase_silence_ms(),
        }
    }
}

/// The local Vosk backend.
#[derive(Debug, Clone)]
pub struct LocalVoskConfig {
    pub model_path: String,
}

/// The local Parakeet backend.
#[derive(Debug, Clone)]
pub struct LocalParakeetConfig {
    pub model_path: String,
}

/// A sidecar that transcribes over HTTP.
#[derive(Debug, Clone)]
pub struct AsrSidecarConfig {
    pub url: String,
    pub model: String,
    pub api_key: Option<String>,
}

/// A server that speaks the realtime protocol.
#[derive(Debug, Clone)]
pub struct OpenAiCompatibleRealtimeConfig {
    pub url: String,
    pub model: String,
    pub profile: String,
    pub turn_detection: String,
    pub api_key: Option<String>,
}

/// One half, as the bits of an IEEE 754 single.
pub const HALF_VOLUME_BITS: u32 = 0x3f00_0000;

/// The backend of a configuration that names none.
pub fn default_backend() -> (r: String)
    ensures
        r@ == "groq"@,
{
    "groq".to_owned()
}

/// The language of a configuration that names none.
pub fn default_language() -> (r: String)
    ensures
        r@ == "en"@,
{
    "en".to_owned()
}

/// How long silence lasts before a recording stops.
pub fn default_silence_timeout() -> (r: u64)
    ensures
        r == 2000,
{
    2000
}

/// A setting that is on unless it is switched off.
pub fn default_true() -> (r: bool)
    ensures
        r,
{
    true
}

/// The input device of a configuration that names none.
pub fn default_device() -> (r: String)
    ensures
        r@ == "default"@,
{
    "default".to_owned()
}

/// The volume of feedback tones, as the bits of a single.
pub fn default_audio_feedback_volume() -> (r: u32)
    ensures
        r == HALF_VOLUME_BITS,
{
    HALF_VOLUME_BITS
}

/// The delay between key events.
pub fn default_key_delay_ms() -> (r: u64)
    ensures
        r == 2,
{
    2
}

/// The model of a section that names none.
pub fn default_deepgram_model() -> (r: String)
    ensures
        r@ == "nova-3"@,
{
    "nova-3".to_owned()
}

/// The model of a section that names none.
pub fn default_groq_model() -> (r: String)
    ensures
        r@ == "whisper-large-v3-turbo"@,
{
    "whisper-large-v3-turbo".to_owned()
}

/// The model of a section that names none.
pub fn default_openai_model() -> (r: String)
    ensures
        r@ == "gpt-4o-mini-transcribe"@,
{
    "gpt-4o-mini-transcribe".to_owned()
}

/// The backend of a section that names none.
pub fn default_tts_backend() -> (r: String)
    ensures
        r@ == "groq"@,
{
    "groq".to_owned()
}

/// The audio format of a section that names none.
pub fn default_tts_response_format() -> (r: String)
    ensures
        r@ == "wav"@,
{
    "wav".to_owned()
}

/// The segmentation of a section that names none.
pub fn default_local_whisper_segmentation() -> (r: String)
    ensures
        r@ == "silence"@,
{
    "silence".to_owned()
}

/// How long silence lasts before a phrase ends.
pub fn default_phrase_silence_ms() -> (r: u64)
    ensures
        r == 400,
{
    400
}

/// The address of a section that names none.
pub fn default_asr_sidecar_url() -> (r: String)
    ensures
        r@ == "http://127.0.0.1:8765/transcribe"@,
{
    "http://127.0.0.1:8765/transcribe".to_owned()
}

/// The model of a section that names none.
pub fn default_asr_sidecar_model() -> (r: String)
    ensures
        r@ == "microsoft/VibeVoice-ASR-HF"@,
{
    "microsoft/VibeVoice-ASR-HF".to_owned()
}

/// The model of a section that names none.
pub fn default_openai_compatible_realtime_model() -> (r: String)
    ensures
        r@ == "Whisper-Tiny"@,
{
    "Whisper-Tiny".to_owned()
}

/// The profile of a section that names none.
pub fn default_openai_compatible_realtime_profile() -> (r: String)
    ensures
        r@ == "lemonade"@,
{
    "lemonade".to_owned()
}

/// The turn detection of a section that names none.
pub fn default_openai_compatible_realtime_turn_detection() -> (r: String)
    ensures
        r@ == "server-vad"@,
{
    "server-vad".to_owned()
}

/// A warning about a configuration issue (non-fatal).
#[derive(Debug, Clone)]
pub struct ConfigWarning {
    pub message: String,
}

/// A failure of the library, with the text that is shown for it.
#[derive(Debug, Clone)]
pub enum WhisrsError {
    /// A configuration that cannot be used.
    Config(String),
    /// Audio that cannot be captured, encoded or stored.
    Audio(String),
    /// Text that cannot be typed or pasted.
    Injection(String),
}

impl WhisrsError {
    /// The message of an error.
    pub open spec fn text(self) -> Seq<char> {
        match self {
            WhisrsError::Config(s) => s@,
            WhisrsError::Audio(s) => s@,
            WhisrsError::Injection(s) => s@,
        }
    }

    /// The text of the error.
    pub fn message(&self) -> (r: String)
        ensures
            r@ == self.text(),
    {
        match self {
            WhisrsError::Config(s) => s.clone(),
            WhisrsError::Audio(s) => s.clone(),
            WhisrsError::Injection(s) => s.clone(),
        }
    }
}

/// The text of each warning, in order.
pub open spec fn warning_texts(v: Seq<ConfigWarning>) -> Seq<Seq<char>> {
    Seq::new(v.len(), |i: int| v[i].message@)
}

/// `dir` with the relative path `rel` appended.
pub open spec fn path_join(dir: Seq<char>, rel: Seq<char>) -> Seq<char> {
    if dir.len() == 0 {
        rel
    } else if dir.last() == '/' {
        dir + rel
    } else {
        dir + "/"@ + rel
    }
}

/// `dir` with the relative path `rel` appended.
pub fn join_path(dir: &str, rel: &str) -> (r: String)
    ensures
        r@ == path_join(dir@, rel@),
{
    let v = to_chars(dir);
    if v.len() == 0 {
        return rel.to_owned();
    }
    let mut s = dir.to_owned();
    if v[v.len() - 1] != '/' {
        s.push_str("/");
    }
    s.push_str(rel);
    s
}

/// Where the configuration lives below `config_dir`, the user's configuration
/// directory where it is known.
pub open spec fn config_file(config_dir: Option<Seq<char>>) -> Seq<char> {
    let dir = match config_dir {
        Some(d) => d,
        None => "~/.config"@,
    };
    path_join(path_join(dir, "whisrs"@), "config.toml"@)
}

/// Return the path to the configuration file, below `config_dir`.
pub fn config_path(config_dir: &Option<String>) -> (r: String)
    ensures
        r@ == config_file(opt_text(*config_dir)),
{
    let dir: &str = match config_dir {
        Some(d) => d.as_str(),
        None => "~/.config",
    };
    let sub = join_path(dir, "whisrs");
    join_path(sub.as_str(), "config.toml")
}

/// A clamped value lies within its bounds, and no value there is nearer to the
/// one that was given; one that lies there already is kept.
pub proof fn clamping_takes_the_nearest(x: int, lo: int, hi: int, y: int)
    requires
        lo <= y <= hi,
    ensures
        lo <= clamped(x, lo, hi) <= hi,
        lo <= x <= hi ==> clamped(x, lo, hi) == x,
        x <= y ==> x <= clamped(x, lo, hi) <= y || clamped(x, lo, hi) == x,
        y <= x ==> y <= clamped(x, lo, hi) <= x || clamped(x, lo, hi) == x,
{
}

/// The hexadecimal digit of a number below 16, in lower or upper case.
pub open spec fn hex_char(n: int, upper: bool) -> char {
    if n < 10 {
        ('0' as u32 + n) as char
    } else if upper {
        ('A' as u32 + n - 10) as char
    } else {
        ('a' as u32 + n - 10) as char
    }
}

proof fn hex_char_reads_back(n: int, upper: bool)
    requires
        0 <= n < 16,
    ensures
        hex_digit(hex_char(n, upper)) == Some(n as u8),
        hex_char(n, upper) != '#',
        !is_white(hex_char(n, upper)),
{
    let c = hex_char(n, upper);
    if n < 10 {
        assert(c as u32 == 48 + n);
    } else if upper {
        assert(c as u32 == 65 + n - 10);
    } else {
        assert(c as u32 == 97 + n - 10);
    }
}

/// The two hexadecimal digits of a byte.
pub open spec fn hex_of(b: u8, upper: bool) -> Seq<char> {
    seq![hex_char(b as int / 16, upper), hex_char(b as int % 16, upper)]
}

proof fn hex_of_reads_back(b: u8, upper: bool)
    ensures
        hex_pair(hex_of(b, upper)[0], hex_of(b, upper)[1]) == Some(b),
        hex_of(b, upper)[0] != '#',
        !is_white(hex_of(b, upper)[0]),
        !is_white(hex_of(b, upper)[1]),
{
    hex_char_reads_back(b as int / 16, upper);
    hex_char_reads_back(b as int % 16, upper);
    assert(16 * (b as int / 16) + b as int % 16 == b);
}

proof fn plain_text_after_hash(t: Seq<char>)
    requires
        t.len() > 0,
        t[0] != '#',
        !is_white(t[0]),
        !is_white(t.last()),
    ensures
        strip_hashes(trim(seq!['#'] + t)) == t,
        strip_hashes(trim(t)) == t,
{
    let none = Seq::<char>::empty();
    let s = seq!['#'] + t;
    assert(s.last() == t.last());
    trimming_gives_what_stands_between(none, s, none);
    assert(none + s + none =~= s);
    trimming_gives_what_stands_between(none, t, none);
    assert(none + t + none =~= t);
    reveal_with_fuel(strip_hashes, 2);
    assert(s.drop_first() =~= t);
}

/// A color reads back: the bytes that two digits each are written for come out
/// in the order alpha, red, green, blue, alpha being written last, and full
/// where it is left out. The number sign may be left out too.
pub proof fn colors_read_back(r: u8, g: u8, b: u8, a: u8, upper: bool)
    ensures
        hex_color(seq!['#'] + (hex_of(r, upper) + hex_of(g, upper) + hex_of(b, upper))) == Some(
            seq![255u8, r, g, b],
        ),
        hex_color(hex_of(r, upper) + hex_of(g, upper) + hex_of(b, upper)) == Some(
            seq![255u8, r, g, b],
        ),
        hex_color(
            seq!['#'] + (hex_of(r, upper) + hex_of(g, upper) + hex_of(b, upper) + hex_of(a, upper)),
        ) == Some(seq![a, r, g, b]),
{
    hex_of_reads_back(r, upper);
    hex_of_reads_back(g, upper);
    hex_of_reads_back(b, upper);
    hex_of_reads_back(a, upper);
    let six = hex_of(r, upper) + hex_of(g, upper) + hex_of(b, upper);
    let eight = six + hex_of(a, upper);
    assert(six.last() == hex_of(b, upper)[1]);
    assert(eight.last() == hex_of(a, upper)[1]);
    plain_text_after_hash(six);
    plain_text_after_hash(eight);
}

/// One digit for each of red, green and blue stands for two that are alike.
pub proof fn short_colors_double_their_digits(r: int, g: int, b: int, upper: bool)
    requires
        0 <= r < 16,
        0 <= g < 16,
        0 <= b < 16,
    ensures
        hex_color(seq!['#'] + seq![hex_char(r, upper), hex_char(g, upper), hex_char(b, upper)])
            == Some(seq![255u8, (17 * r) as u8, (17 * g) as u8, (17 * b) as u8]),
{
    hex_char_reads_back(r, upper);
    hex_char_reads_back(g, upper);
    hex_char_reads_back(b, upper);
    let three = seq![hex_char(r, upper), hex_char(g, upper), hex_char(b, upper)];
    plain_text_after_hash(three);
}

/// Where a path is appended, exactly one separator stands before it, and the
/// directory and the path are kept.
pub proof fn joined_paths_keep_their_parts(dir: Seq<char>, rel: Seq<char>)
    ensures
        dir.len() > 0 && dir.last() != '/' ==> path_join(dir, rel) == dir.push('/') + rel,
        path_join(dir.push('/'), rel) == dir.push('/') + rel,
        path_join(Seq::<char>::empty(), rel) == rel,
{
    reveal_strlit("/");
    assert("/"@ =~= seq!['/']);
    assert(dir.push('/').last() == '/');
    if dir.len() > 0 && dir.last() != '/' {
        assert(dir + "/"@ + rel =~= dir.push('/') + rel);
    }
}

/// The configuration lies in a directory of its own, below the one given, or
/// below the user's where none is.
pub proof fn configuration_has_its_place(dir: Seq<char>)
    requires
        dir.len() > 0,
        dir.last() != '/',
    ensures
        config_file(Some(dir)) == dir + "/whisrs/config.toml"@,
        config_file(None) == "~/.config/whisrs/config.toml"@,
{
    reveal_strlit("/");
    reveal_strlit("whisrs");
    reveal_strlit("config.toml");
    reveal_strlit("/whisrs/config.toml");
    reveal_strlit("~/.config");
    reveal_strlit("~/.config/whisrs/config.toml");
    let sub = path_join(dir, "whisrs"@);
    assert(sub.last() == 's');
    assert(config_file(Some(dir)) =~= dir + "/whisrs/config.toml"@);
    let home = path_join("~/.config"@, "whisrs"@);
    assert(home.last() == 's');
    assert(config_file(None) =~= "~/.config/whisrs/config.toml"@);
}

/// More number signs than one before a color do not count, and neither does
/// white space round it.
pub proof fn further_number_signs_do_not_count(
    before: Seq<char>,
    s: Seq<char>,
    after: Seq<char>,
)
    requires
        s.len() > 0,
        s[0] == '#',
        !is_white(s.last()),
        all_white(before),
        all_white(after),
    ensures
        hex_color(seq!['#'] + s) == hex_color(s),
        hex_color(before + s + after) == hex_color(s),
{
    let none = Seq::<char>::empty();
    let more = seq!['#'] + s;
    assert(!is_white('#'));
    assert(more.last() == s.last());
    trimming_gives_what_stands_between(none, more, none);
    assert(none + more + none =~= more);
    trimming_gives_what_stands_between(none, s, none);
    assert(none + s + none =~= s);
    trimming_gives_what_stands_between(before, s, after);
    assert(more.drop_first() =~= s);
    assert(strip_hashes(more) == strip_hashes(s));
}

} // verus!
