//! Choosing a transcription backend and asking for what it needs.

use crate::config::secrets::{mask_api_key, masked_key};
use crate::config::types::{
    join_path, path_join, AsrSidecarConfig, Config, DeepgramConfig, GroqConfig,
    LocalWhisperConfig, OpenAiCompatibleRealtimeConfig, OpenAiConfig,
};
use crate::text::{
    clone_opt, opt_text, same_text, starts_with, text_list, text_starts_with, texts, to_chars,
    trim, trimmed, trimmed_chars,
};
use vstd::prelude::*;

verus! {

/// The backends in the order in which they are offered.
pub open spec fn backend_labels() -> Seq<Seq<char>> {
    seq![
        "Groq               (free, fast, cloud)"@,
        "Deepgram Streaming (free credits, true streaming, cloud)"@,
        "Deepgram REST      (free credits, simple, cloud)"@,
        "OpenAI Realtime    (best streaming, cloud)"@,
        "OpenAI REST        (simple, cloud)"@,
        "OpenAI-compatible Realtime (external WebSocket, Lemonade-style)"@,
        "Local              (offline, no API key needed)"@,
        "ASR sidecar        (local HTTP sidecar, model-agnostic)"@,
    ]
}

/// Backend choices presented to the user.
pub fn backend_choices() -> (r: Vec<String>)
    ensures
        texts(r@) == backend_labels(),
{
    let r = text_list(
        &[
            "Groq               (free, fast, cloud)",
            "Deepgram Streaming (free credits, true streaming, cloud)",
            "Deepgram REST      (free credits, simple, cloud)",
            "OpenAI Realtime    (best streaming, cloud)",
            "OpenAI REST        (simple, cloud)",
            "OpenAI-compatible Realtime (external WebSocket, Lemonade-style)",
            "Local              (offline, no API key needed)",
            "ASR sidecar        (local HTTP sidecar, model-agnostic)",
        ],
    );
    assert(texts(r@) =~= backend_labels());
    r
}

/// The name of each offered backend in the configuration.
pub open spec fn backend_name(selection: int) -> Seq<char> {
    if selection == 0 {
        "groq"@
    } else if selection == 1 {
        "deepgram-streaming"@
    } else if selection == 2 {
        "deepgram"@
    } else if selection == 3 {
        "openai-realtime"@
    } else if selection == 4 {
        "openai"@
    } else if selection == 5 {
        "openai-compatible-realtime"@
    } else if selection == 6 {
        "local"@
    } else {
        "asr-sidecar"@
    }
}

/// The name in the configuration of the backend at an index of the list.
pub fn backend_value(selection: usize) -> (r: &'static str)
    requires
        selection < 8,
    ensures
        r@ == backend_name(selection as int),
{
    match selection {
        0 => "groq",
        1 => "deepgram-streaming",
        2 => "deepgram",
        3 => "openai-realtime",
        4 => "openai",
        5 => "openai-compatible-realtime",
        6 => "local",
        _ => "asr-sidecar",
    }
}

/// Where a configured backend stands in the list of choices.
pub open spec fn backend_index(backend: Seq<char>) -> int {
    if backend == "groq"@ {
        0
    } else if backend == "deepgram-streaming"@ {
        1
    } else if backend == "deepgram"@ {
        2
    } else if backend == "openai-realtime"@ {
        3
    } else if backend == "openai"@ {
        4
    } else if backend == "openai-compatible-realtime"@ {
        5
    } else if starts_with(backend, "local"@) {
        6
    } else if backend == "asr-sidecar"@ || backend == "asr"@ || backend == "vibevoice"@ {
        7
    } else {
        0
    }
}

/// The index that is offered first: that of the configured backend, where one
/// is known.
pub fn default_backend_index(existing: Option<&Config>) -> (r: usize)
    ensures
        r < 8,
        r == (match existing {
            Some(c) => backend_index(c.general.backend@),
            None => 0,
        }),
{
    let b = match existing {
        Some(c) => c.general.backend.as_str(),
        None => return 0,
    };
    if same_text(b, "groq") {
        0
    } else if same_text(b, "deepgram-streaming") {
        1
    } else if same_text(b, "deepgram") {
        2
    } else if same_text(b, "openai-realtime") {
        3
    } else if same_text(b, "openai") {
        4
    } else if same_text(b, "openai-compatible-realtime") {
        5
    } else if text_starts_with(b, "local") {
        6
    } else if same_text(b, "asr-sidecar") || same_text(b, "asr") || same_text(b, "vibevoice") {
        7
    } else {
        0
    }
}

/// Every backend of the list is offered first once it is configured.
pub proof fn configured_backend_is_offered_first(selection: int)
    requires
        0 <= selection < 8,
    ensures
        backend_index(backend_name(selection)) == selection,
{
    reveal_strlit("groq");
    reveal_strlit("deepgram-streaming");
    reveal_strlit("deepgram");
    reveal_strlit("openai-realtime");
    reveal_strlit("openai");
    reveal_strlit("openai-compatible-realtime");
    reveal_strlit("local");
    reveal_strlit("asr-sidecar");
    let b = backend_name(selection);
    assert(selection == 6 ==> b.take(5) =~= b);
    if selection == 7 {
        assert(b.take(5)[0] == 'a');
        assert("local"@[0] == 'l');
    }
    assert(b.len() == "groq"@.len() ==> selection == 0);
    assert(b.len() == "deepgram-streaming"@.len() ==> selection == 1);
    assert(b.len() == "deepgram"@.len() ==> selection == 2);
    assert(b.len() == "openai-realtime"@.len() ==> selection == 3);
    assert(b.len() == "openai"@.len() ==> selection == 4);
    assert(b.len() == "openai-compatible-realtime"@.len() ==> selection == 5);
}

/// The name of the local engine at an index of the list of engines, where it
/// cannot be had yet; the engine that is used in its place is whisper.cpp.
pub fn missing_engine(selection: usize) -> (r: Option<&'static str>)
    ensures
        match r {
            None => selection == 0,
            Some(n) => n@ == (if selection == 1 {
                "Vosk"@
            } else {
                "Parakeet"@
            }) && selection != 0,
        },
{
    match selection {
        0 => None,
        1 => Some("Vosk"),
        _ => Some("Parakeet"),
    }
}

/// The backend that a selection stands for. The local entry stands for
/// whisper.cpp, the only local engine.
pub open spec fn chosen_name(selection: int) -> Seq<char> {
    if selection == 6 {
        "local-whisper"@
    } else {
        backend_name(selection)
    }
}

/// The backend that a selection stands for.
pub fn chosen_backend(selection: usize) -> (r: String)
    requires
        selection < 8,
    ensures
        r@ == chosen_name(selection as int),
{
    if selection == 6 {
        "local-whisper".to_owned()
    } else {
        backend_value(selection).to_owned()
    }
}

/// The sections that configuring one backend makes.
#[derive(Debug, Clone)]
pub struct BackendConfigSelection {
    pub deepgram: Option<DeepgramConfig>,
    pub groq: Option<GroqConfig>,
    pub openai: Option<OpenAiConfig>,
    pub local_whisper: Option<LocalWhisperConfig>,
    pub asr_sidecar: Option<AsrSidecarConfig>,
    pub openai_compatible_realtime: Option<OpenAiCompatibleRealtimeConfig>,
}

impl BackendConfigSelection {
    /// No section at all.
    pub open spec fn nothing() -> Self {
        BackendConfigSelection {
            deepgram: None,
            groq: None,
            openai: None,
            local_whisper: None,
            asr_sidecar: None,
            openai_compatible_realtime: None,
        }
    }
}

impl Default for BackendConfigSelection {
    fn default() -> (r: Self)
        ensures
            r == BackendConfigSelection::nothing(),
    {
        BackendConfigSelection {
            deepgram: None,
            groq: None,
            openai: None,
            local_whisper: None,
            asr_sidecar: None,
            openai_compatible_realtime: None,
        }
    }
}

/// A service that is used with a key of its own.
#[derive(Debug, Clone, Copy, PartialEq, Eq, Structural)]
pub enum Service {
    Deepgram,
    Groq,
    OpenAi,
}

impl Service {
    /// What a key is asked for with.
    pub open spec fn spec_prompt(self) -> Seq<char> {
        match self {
            Service::Deepgram => "Deepgram API key"@,
            Service::Groq => "Groq API key"@,
            Service::OpenAi => "OpenAI API key"@,
        }
    }

    /// What is asked for.
    pub fn prompt(self) -> (r: &'static str)
        ensures
            r@ == self.spec_prompt(),
    {
        match self {
            Service::Deepgram => "Deepgram API key",
            Service::Groq => "Groq API key",
            Service::OpenAi => "OpenAI API key",
        }
    }

    /// Where a key can be had.
    pub open spec fn spec_hint(self) -> Seq<char> {
        match self {
            Service::Deepgram => "Get one free ($200 credit) at https://console.deepgram.com/signup"@,
            Service::Groq => "Get one free at https://console.groq.com/keys"@,
            Service::OpenAi => "Get one at https://platform.openai.com/api-keys"@,
        }
    }

    /// Where a key is to be had.
    pub fn hint(self) -> (r: &'static str)
        ensures
            r@ == self.spec_hint(),
    {
        match self {
            Service::Deepgram => "Get one free ($200 credit) at https://console.deepgram.com/signup",
            Service::Groq => "Get one free at https://console.groq.com/keys",
            Service::OpenAi => "Get one at https://platform.openai.com/api-keys",
        }
    }
}

/// What was answered so far. A field is `None` until its question was asked.
#[derive(Debug, Clone)]
pub struct BackendAnswers {
    /// Whether the key or token found in the configuration is kept.
    pub keep_key: Option<bool>,
    /// The key or token that was typed.
    pub key: Option<String>,
    pub url: Option<String>,
    pub model: Option<String>,
    /// Index in the list of OpenAI models.
    pub openai_model: Option<usize>,
    /// Index in the list of compatibility profiles.
    pub profile: Option<usize>,
    /// Index in the list of ways to detect turns.
    pub turn_detection: Option<usize>,
    /// Index in the list of whisper models.
    pub whisper_model: Option<usize>,
    /// Whether the file of the whisper model is there.
    pub model_present: Option<bool>,
    /// Index in the list of ways to get the model; the first is to download it
    /// now.
    pub download: Option<usize>,
    /// Whether the download has been made.
    pub downloaded: bool,
}

impl BackendAnswers {
    /// Whether every index is one of its list.
    pub open spec fn in_range(self) -> bool {
        &&& self.profile matches Some(i) ==> i < 1
        &&& self.turn_detection matches Some(i) ==> i < 2
        &&& self.whisper_model matches Some(i) ==> i < 3
    }

    /// Nothing answered yet.
    pub fn new() -> (r: Self)
        ensures
            r == (BackendAnswers {
                keep_key: None,
                key: None,
                url: None,
                model: None,
                openai_model: None,
                profile: None,
                turn_detection: None,
                whisper_model: None,
                model_present: None,
                download: None,
                downloaded: false,
            }),
            r.in_range(),
    {
        BackendAnswers {
            keep_key: None,
            key: None,
            url: None,
            model: None,
            openai_model: None,
            profile: None,
            turn_detection: None,
            whisper_model: None,
            model_present: None,
            download: None,
            downloaded: false,
        }
    }
}

/// What a question for a key has come to.
pub enum KeyState {
    /// A key is there: it is shown masked, and offered to be kept.
    Offer(Seq<char>),
    /// A key is to be typed.
    Ask,
    /// The key is known.
    Known(Seq<char>),
}

/// What the question for a key has come to: a key found is offered first, and
/// one is asked for where there is none or it is not kept.
pub open spec fn key_state(
    found: Option<Seq<char>>,
    keep: Option<bool>,
    typed: Option<Seq<char>>,
) -> KeyState {
    let asked = match typed {
        Some(t) => KeyState::Known(t),
        None => KeyState::Ask,
    };
    match found {
        Some(k) if k.len() > 0 => match keep {
            None => KeyState::Offer(masked_key(k)),
            Some(true) => KeyState::Known(k),
            Some(false) => asked,
        },
        _ => asked,
    }
}

enum KeyStep {
    Offer(String),
    Ask,
    Known(String),
}

impl KeyStep {
    spec fn state(self) -> KeyState {
        match self {
            KeyStep::Offer(s) => KeyState::Offer(s@),
            KeyStep::Ask => KeyState::Ask,
            KeyStep::Known(s) => KeyState::Known(s@),
        }
    }
}

fn key_step(found: &Option<String>, keep: Option<bool>, typed: &Option<String>) -> (r: KeyStep)
    ensures
        r.state() == key_state(opt_text(*found), keep, opt_text(*typed)),
{
    if let Some(k) = found {
        if to_chars(k.as_str()).len() > 0 {
            match keep {
                None => {
                    return KeyStep::Offer(mask_api_key(k.as_str()));
                },
                Some(kept) => {
                    if kept {
                        return KeyStep::Known(k.clone());
                    }
                },
            }
        }
    }
    match typed {
        Some(t) => KeyStep::Known(t.clone()),
        None => KeyStep::Ask,
    }
}

/// The models that OpenAI's transcription is offered with.
pub open spec fn openai_model_name(selection: int) -> Seq<char> {
    if selection == 0 {
        "gpt-4o-mini-transcribe"@
    } else if selection == 1 {
        "gpt-4o-transcribe"@
    } else {
        "whisper-1"@
    }
}

fn openai_model_value(selection: usize) -> (r: &'static str)
    ensures
        r@ == openai_model_name(selection as int),
{
    match selection {
        0 => "gpt-4o-mini-transcribe",
        1 => "gpt-4o-transcribe",
        _ => "whisper-1",
    }
}

/// The whisper models that are offered.
pub open spec fn whisper_model_name(selection: int) -> Seq<char> {
    if selection == 0 {
        "tiny.en"@
    } else if selection == 1 {
        "base.en"@
    } else {
        "small.en"@
    }
}

fn whisper_model_value(selection: usize) -> (r: &'static str)
    requires
        selection < 3,
    ensures
        r@ == whisper_model_name(selection as int),
{
    match selection {
        0 => "tiny.en",
        1 => "base.en",
        _ => "small.en",
    }
}

/// The ways to detect the end of a turn.
pub open spec fn turn_detection_name(selection: int) -> Seq<char> {
    if selection == 0 {
        "server-vad"@
    } else {
        "manual-commit"@
    }
}

/// The directory of whisper models below `data_dir`, the user's data directory
/// where it is known.
pub open spec fn model_dir(data_dir: Option<Seq<char>>) -> Seq<char> {
    let dir = match data_dir {
        Some(d) => d,
        None => "~/.local/share"@,
    };
    path_join(dir, "whisrs/models"@)
}

/// Return the default directory for storing whisper models.
pub fn default_model_dir(data_dir: &Option<String>) -> (r: String)
    ensures
        r@ == model_dir(opt_text(*data_dir)),
{
    let dir: &str = match data_dir {
        Some(d) => d.as_str(),
        None => "~/.local/share",
    };
    join_path(dir, "whisrs/models")
}

/// The name of a model's file.
pub open spec fn model_file(name: Seq<char>) -> Seq<char> {
    "ggml-"@ + name + ".bin"@
}

/// The name of a model's file.
pub fn model_file_name(name: &str) -> (r: String)
    ensures
        r@ == model_file(name@),
{
    let mut r = "ggml-".to_owned();
    r.push_str(name);
    r.push_str(".bin");
    r
}

/// Where a model is downloaded from.
pub open spec fn model_url(name: Seq<char>) -> Seq<char> {
    "https://huggingface.co/ggerganov/whisper.cpp/resolve/main/"@ + model_file(name)
}

/// Where a model is downloaded from.
pub fn model_download_url(name: &str) -> (r: String)
    ensures
        r@ == model_url(name@),
{
    let mut r = "https://huggingface.co/ggerganov/whisper.cpp/resolve/main/".to_owned();
    r.push_str(model_file_name(name).as_str());
    r
}

/// The OpenAI models as they are offered.
pub open spec fn openai_model_labels() -> Seq<Seq<char>> {
    seq![
        "gpt-4o-mini-transcribe (recommended)"@,
        "gpt-4o-transcribe"@,
        "whisper-1"@,
    ]
}

/// The OpenAI models as they are offered.
pub fn openai_model_choices() -> (r: Vec<String>)
    ensures
        texts(r@) == openai_model_labels(),
{
    let r = text_list(
        &[
            "gpt-4o-mini-transcribe (recommended)",
            "gpt-4o-transcribe",
            "whisper-1",
        ],
    );
    assert(texts(r@) =~= openai_model_labels());
    r
}

/// The whisper models as they are offered.
pub open spec fn whisper_model_labels() -> Seq<Seq<char>> {
    seq![
        "tiny.en    (75 MB,  decent accuracy, very fast)"@,
        "base.en    (142 MB, good accuracy, real-time)  <- recommended"@,
        "small.en   (466 MB, very good accuracy, slower)"@,
    ]
}

/// The whisper models as they are offered.
pub fn whisper_model_choices() -> (r: Vec<String>)
    ensures
        texts(r@) == whisper_model_labels(),
{
    let r = text_list(
        &[
            "tiny.en    (75 MB,  decent accuracy, very fast)",
            "base.en    (142 MB, good accuracy, real-time)  <- recommended",
            "small.en   (466 MB, very good accuracy, slower)",
        ],
    );
    assert(texts(r@) =~= whisper_model_labels());
    r
}

/// The ways to detect turns as they are offered.
pub open spec fn turn_detection_labels() -> Seq<Seq<char>> {
    seq![
        "server-vad    (recommended — type completed phrases while you keep speaking)"@,
        "manual-commit (flush only when recording stops)"@,
    ]
}

/// The ways to detect turns as they are offered.
pub fn turn_detection_choices() -> (r: Vec<String>)
    ensures
        texts(r@) == turn_detection_labels(),
{
    let r = text_list(
        &[
            "server-vad    (recommended — type completed phrases while you keep speaking)",
            "manual-commit (flush only when recording stops)",
        ],
    );
    assert(texts(r@) =~= turn_detection_labels());
    r
}

/// The local engines as they are offered.
pub open spec fn engine_labels() -> Seq<Seq<char>> {
    seq![
        "whisper.cpp     (recommended — best accuracy, CPU/GPU)"@,
        "Vosk            (coming soon — true streaming, tiny model)"@,
        "Parakeet        (coming soon — NVIDIA, ultra-fast)"@,
    ]
}

/// The local engines as they are offered.
pub fn engine_choices() -> (r: Vec<String>)
    ensures
        texts(r@) == engine_labels(),
{
    let r = text_list(
        &[
            "whisper.cpp     (recommended — best accuracy, CPU/GPU)",
            "Vosk            (coming soon — true streaming, tiny model)",
            "Parakeet        (coming soon — NVIDIA, ultra-fast)",
        ],
    );
    assert(texts(r@) =~= engine_labels());
    r
}

/// What to do next to configure a backend.
#[derive(Debug)]
pub enum BackendStep {
    /// Show the masked key and ask whether to keep it.
    KeepKey(String),
    /// Ask for the key of a service.
    EnterKey(Service),
    /// Show the masked token and ask whether to keep it.
    KeepToken(String),
    /// Ask for a token, which may be left empty.
    EnterToken,
    /// Ask for an address, with a default.
    EnterUrl(String),
    /// Ask for the name of a model, with a default.
    EnterModel(String),
    /// Ask for one of the OpenAI models.
    PickOpenAiModel,
    /// Ask for a compatibility profile, with a default index.
    PickProfile(usize),
    /// Ask how turns are detected, with a default index.
    PickTurnDetection(usize),
    /// Ask for one of the whisper models, with a default index.
    PickWhisperModel(usize),
    /// Look whether the model file is at this path.
    LookForModel(String),
    /// Ask whether to download the model to this path.
    OfferDownload(String),
    /// Download from the address to the path.
    Download(String, String),
    /// The backend is configured.
    Done(BackendConfigSelection),
}

/// A step with what it shows.
pub enum BackendAsk {
    KeepKey(Seq<char>),
    EnterKey(Service),
    KeepToken(Seq<char>),
    EnterToken,
    EnterUrl(Seq<char>),
    EnterModel(Seq<char>),
    PickOpenAiModel,
    PickProfile(int),
    PickTurnDetection(int),
    PickWhisperModel(int),
    LookForModel(Seq<char>),
    OfferDownload(Seq<char>),
    Download(Seq<char>, Seq<char>),
    Done,
}

impl BackendStep {
    /// What a step asks for.
    pub open spec fn ask(self) -> BackendAsk {
        match self {
            BackendStep::KeepKey(s) => BackendAsk::KeepKey(s@),
            BackendStep::EnterKey(x) => BackendAsk::EnterKey(x),
            BackendStep::KeepToken(s) => BackendAsk::KeepToken(s@),
            BackendStep::EnterToken => BackendAsk::EnterToken,
            BackendStep::EnterUrl(s) => BackendAsk::EnterUrl(s@),
            BackendStep::EnterModel(s) => BackendAsk::EnterModel(s@),
            BackendStep::PickOpenAiModel => BackendAsk::PickOpenAiModel,
            BackendStep::PickProfile(i) => BackendAsk::PickProfile(i as int),
            BackendStep::PickTurnDetection(i) => BackendAsk::PickTurnDetection(i as int),
            BackendStep::PickWhisperModel(i) => BackendAsk::PickWhisperModel(i as int),
            BackendStep::LookForModel(s) => BackendAsk::LookForModel(s@),
            BackendStep::OfferDownload(s) => BackendAsk::OfferDownload(s@),
            BackendStep::Download(a, b) => BackendAsk::Download(a@, b@),
            BackendStep::Done(_) => BackendAsk::Done,
        }
    }
}

/// What kind of backend a name stands for.
pub enum BackendKind {
    Deepgram,
    Groq,
    OpenAi,
    OpenAiRealtime,
    CompatibleRealtime,
    LocalWhisper,
    Sidecar,
    Other,
}

/// What kind of backend a name stands for.
pub open spec fn backend_kind(backend: Seq<char>) -> BackendKind {
    if backend == "deepgram"@ || backend == "deepgram-streaming"@ {
        BackendKind::Deepgram
    } else if backend == "groq"@ {
        BackendKind::Groq
    } else if backend == "openai-realtime"@ {
        BackendKind::OpenAiRealtime
    } else if backend == "openai"@ {
        BackendKind::OpenAi
    } else if backend == "openai-compatible-realtime"@ {
        BackendKind::CompatibleRealtime
    } else if backend == "local-whisper"@ {
        BackendKind::LocalWhisper
    } else if backend == "asr-sidecar"@ || backend == "asr"@ || backend == "vibevoice"@ {
        BackendKind::Sidecar
    } else {
        BackendKind::Other
    }
}

fn kind_of(backend: &str) -> (r: BackendKind)
    ensures
        r == backend_kind(backend@),
{
    if same_text(backend, "deepgram") || same_text(backend, "deepgram-streaming") {
        BackendKind::Deepgram
    } else if same_text(backend, "groq") {
        BackendKind::Groq
    } else if same_text(backend, "openai-realtime") {
        BackendKind::OpenAiRealtime
    } else if same_text(backend, "openai") {
        BackendKind::OpenAi
    } else if same_text(backend, "openai-compatible-realtime") {
        BackendKind::CompatibleRealtime
    } else if same_text(backend, "local-whisper") {
        BackendKind::LocalWhisper
    } else if same_text(backend, "asr-sidecar") || same_text(backend, "asr") || same_text(
        backend,
        "vibevoice",
    ) {
        BackendKind::Sidecar
    } else {
        BackendKind::Other
    }
}

/// The question for the key of a service, or `next` once the key is known.
pub open spec fn service_ask(state: KeyState, service: Service, next: BackendAsk) -> BackendAsk {
    match state {
        KeyState::Offer(s) => BackendAsk::KeepKey(s),
        KeyState::Ask => BackendAsk::EnterKey(service),
        KeyState::Known(_) => next,
    }
}

/// What the question for the backend's key or token has come to.
pub open spec fn backend_key_state(
    kind: BackendKind,
    existing: Option<&Config>,
    a: BackendAnswers,
) -> KeyState {
    let found = match existing {
        None => None,
        Some(c) => match kind {
            BackendKind::Deepgram => match c.deepgram {
                Some(d) => Some(d.api_key@),
                None => None,
            },
            BackendKind::Groq => match c.groq {
                Some(g) => Some(g.api_key@),
                None => None,
            },
            BackendKind::OpenAi | BackendKind::OpenAiRealtime => match c.openai {
                Some(o) => Some(o.api_key@),
                None => None,
            },
            BackendKind::CompatibleRealtime => match c.openai_compatible_realtime {
                Some(x) => opt_text(x.api_key),
                None => None,
            },
            _ => None,
        },
    };
    key_state(found, a.keep_key, opt_text(a.key))
}

/// The realtime section of the configuration at hand.
pub open spec fn realtime_section(existing: Option<&Config>) -> Option<
    OpenAiCompatibleRealtimeConfig,
> {
    match existing {
        Some(c) => c.openai_compatible_realtime,
        None => None,
    }
}

/// The sidecar section of the configuration at hand.
pub open spec fn sidecar_section(existing: Option<&Config>) -> Option<AsrSidecarConfig> {
    match existing {
        Some(c) => c.asr_sidecar,
        None => None,
    }
}

/// The path of the chosen whisper model.
pub open spec fn model_destination(data_dir: Option<Seq<char>>, selection: int) -> Seq<char> {
    path_join(model_dir(data_dir), model_file(whisper_model_name(selection)))
}

/// The next step for a backend, after the answers given so far.
pub open spec fn backend_ask(
    kind: BackendKind,
    existing: Option<&Config>,
    data_dir: Option<Seq<char>>,
    a: BackendAnswers,
) -> BackendAsk {
    let key = backend_key_state(kind, existing, a);
    match kind {
        BackendKind::Deepgram => service_ask(key, Service::Deepgram, BackendAsk::Done),
        BackendKind::Groq => service_ask(key, Service::Groq, BackendAsk::Done),
        BackendKind::OpenAiRealtime => service_ask(key, Service::OpenAi, BackendAsk::Done),
        BackendKind::OpenAi => service_ask(
            key,
            Service::OpenAi,
            if a.openai_model is None {
                BackendAsk::PickOpenAiModel
            } else {
                BackendAsk::Done
            },
        ),
        BackendKind::CompatibleRealtime => if a.url is None {
            BackendAsk::EnterUrl(
                match realtime_section(existing) {
                    Some(x) => x.url@,
                    None => "ws://localhost:12345/realtime"@,
                },
            )
        } else if a.model is None {
            BackendAsk::EnterModel(
                match realtime_section(existing) {
                    Some(x) => x.model@,
                    None => "Whisper-Tiny"@,
                },
            )
        } else if a.profile is None {
            BackendAsk::PickProfile(0)
        } else if a.turn_detection is None {
            BackendAsk::PickTurnDetection(
                match realtime_section(existing) {
                    Some(x) => if trim(x.turn_detection@) == "manual-commit"@ {
                        1
                    } else {
                        0
                    },
                    None => 0,
                },
            )
        } else {
            match key {
                KeyState::Offer(s) => BackendAsk::KeepToken(s),
                KeyState::Ask => BackendAsk::EnterToken,
                KeyState::Known(_) => BackendAsk::Done,
            }
        },
        BackendKind::LocalWhisper => match a.whisper_model {
            None => BackendAsk::PickWhisperModel(1),
            Some(i) => {
                let dest = model_destination(data_dir, i as int);
                match a.model_present {
                    None => BackendAsk::LookForModel(dest),
                    Some(true) => BackendAsk::Done,
                    Some(false) => match a.download {
                        None => BackendAsk::OfferDownload(dest),
                        Some(c) => if c == 0 && !a.downloaded {
                            BackendAsk::Download(model_url(whisper_model_name(i as int)), dest)
                        } else {
                            BackendAsk::Done
                        },
                    },
                }
            },
        },
        BackendKind::Sidecar => if a.url is None {
            BackendAsk::EnterUrl(
                match sidecar_section(existing) {
                    Some(x) => x.url@,
                    None => "http://127.0.0.1:8765/transcribe"@,
                },
            )
        } else if a.model is None {
            BackendAsk::EnterModel(
                match sidecar_section(existing) {
                    Some(x) => x.model@,
                    None => "microsoft/VibeVoice-ASR-HF"@,
                },
            )
        } else {
            BackendAsk::Done
        },
        BackendKind::Other => BackendAsk::Done,
    }
}

/// A token, where it is not blank.
pub open spec fn optional_token(state: KeyState) -> Option<Seq<char>> {
    match state {
        KeyState::Known(t) => if trim(t).len() > 0 {
            Some(t)
        } else {
            None
        },
        _ => None,
    }
}

/// Whether `sel` holds what the answers say, in the section of the backend and
/// in no other.
pub open spec fn is_selection(
    sel: BackendConfigSelection,
    kind: BackendKind,
    existing: Option<&Config>,
    data_dir: Option<Seq<char>>,
    a: BackendAnswers,
) -> bool {
    let key = backend_key_state(kind, existing, a);
    match kind {
        BackendKind::Deepgram => {
            &&& sel == BackendConfigSelection {
                deepgram: sel.deepgram,
                ..BackendConfigSelection::nothing()
            }
            &&& sel.deepgram matches Some(d)
            &&& KeyState::Known(d.api_key@) == key
            &&& d.model@ == (match existing {
                Some(c) => match c.deepgram {
                    Some(old) => old.model@,
                    None => "nova-3"@,
                },
                None => "nova-3"@,
            })
        },
        BackendKind::Groq => {
            &&& sel == BackendConfigSelection {
                groq: sel.groq,
                ..BackendConfigSelection::nothing()
            }
            &&& sel.groq matches Some(g)
            &&& KeyState::Known(g.api_key@) == key
            &&& g.model@ == (match existing {
                Some(c) => match c.groq {
                    Some(old) => old.model@,
                    None => "whisper-large-v3-turbo"@,
                },
                None => "whisper-large-v3-turbo"@,
            })
        },
        BackendKind::OpenAi | BackendKind::OpenAiRealtime => {
            &&& sel == BackendConfigSelection {
                openai: sel.openai,
                ..BackendConfigSelection::nothing()
            }
            &&& sel.openai matches Some(o)
            &&& KeyState::Known(o.api_key@) == key
            &&& o.model@ == (if kind is OpenAiRealtime {
                "gpt-realtime-whisper"@
            } else {
                openai_model_name(a.openai_model->0 as int)
            })
        },
        BackendKind::CompatibleRealtime => {
            &&& sel == BackendConfigSelection {
                openai_compatible_realtime: sel.openai_compatible_realtime,
                ..BackendConfigSelection::nothing()
            }
            &&& sel.openai_compatible_realtime matches Some(x)
            &&& opt_text(a.url) == Some(x.url@)
            &&& opt_text(a.model) == Some(x.model@)
            &&& x.profile@ == "lemonade"@
            &&& x.turn_detection@ == turn_detection_name(a.turn_detection->0 as int)
            &&& opt_text(x.api_key) == (if a.keep_key == Some(true) && kept_token(existing) is Some {
                kept_token(existing)
            } else {
                optional_token(key)
            })
        },
        BackendKind::LocalWhisper => {
            &&& sel == BackendConfigSelection {
                local_whisper: sel.local_whisper,
                ..BackendConfigSelection::nothing()
            }
            &&& sel.local_whisper matches Some(w)
            &&& w.model_path@ == model_destination(data_dir, a.whisper_model->0 as int)
            &&& w.segmentation@ == "silence"@
            &&& w.phrase_silence_ms == 400
        },
        BackendKind::Sidecar => {
            &&& sel == BackendConfigSelection {
                asr_sidecar: sel.asr_sidecar,
                ..BackendConfigSelection::nothing()
            }
            &&& sel.asr_sidecar matches Some(x)
            &&& opt_text(a.url) == Some(x.url@)
            &&& opt_text(a.model) == Some(x.model@)
            &&& opt_text(x.api_key) == (match sidecar_section(existing) {
                Some(old) => opt_text(old.api_key),
                None => None,
            })
        },
        BackendKind::Other => sel == BackendConfigSelection::nothing(),
    }
}

/// The token of the configuration at hand, where it is not empty.
pub open spec fn kept_token(existing: Option<&Config>) -> Option<Seq<char>> {
    match realtime_section(existing) {
        Some(x) => match opt_text(x.api_key) {
            Some(k) if k.len() > 0 => Some(k),
            _ => None,
        },
        None => None,
    }
}

fn configure_deepgram(existing: Option<&Config>, a: &BackendAnswers) -> (r: BackendStep)
    ensures
        r.ask() == backend_ask(BackendKind::Deepgram, existing, None, *a),
        r matches BackendStep::Done(sel) ==> is_selection(
            sel,
            BackendKind::Deepgram,
            existing,
            None,
            *a,
        ),
{
    let mut found: Option<String> = None;
    let mut model = "nova-3".to_owned();
    if let Some(c) = existing {
        if let Some(d) = &c.deepgram {
            found = Some(d.api_key.clone());
            model = d.model.clone();
        }
    }
    match key_step(&found, a.keep_key, &a.key) {
        KeyStep::Offer(s) => BackendStep::KeepKey(s),
        KeyStep::Ask => BackendStep::EnterKey(Service::Deepgram),
        KeyStep::Known(api_key) => {
            let mut sel = BackendConfigSelection::default();
            sel.deepgram = Some(DeepgramConfig { api_key, model });
            BackendStep::Done(sel)
        },
    }
}

fn configure_groq(existing: Option<&Config>, a: &BackendAnswers) -> (r: BackendStep)
    ensures
        r.ask() == backend_ask(BackendKind::Groq, existing, None, *a),
        r matches BackendStep::Done(sel) ==> is_selection(
            sel,
            BackendKind::Groq,
            existing,
            None,
            *a,
        ),
{
    let mut found: Option<String> = None;
    let mut model = "whisper-large-v3-turbo".to_owned();
    if let Some(c) = existing {
        if let Some(g) = &c.groq {
            found = Some(g.api_key.clone());
            model = g.model.clone();
        }
    }
    match key_step(&found, a.keep_key, &a.key) {
        KeyStep::Offer(s) => BackendStep::KeepKey(s),
        KeyStep::Ask => BackendStep::EnterKey(Service::Groq),
        KeyStep::Known(api_key) => {
            let mut sel = BackendConfigSelection::default();
            sel.groq = Some(GroqConfig { api_key, model });
            BackendStep::Done(sel)
        },
    }
}

fn configure_openai(realtime: bool, existing: Option<&Config>, a: &BackendAnswers) -> (r: BackendStep)
    ensures
        ({
            let kind = if realtime {
                BackendKind::OpenAiRealtime
            } else {
                BackendKind::OpenAi
            };
            &&& r.ask() == backend_ask(kind, existing, None, *a)
            &&& r matches BackendStep::Done(sel) ==> is_selection(sel, kind, existing, None, *a)
        }),
{
    let mut found: Option<String> = None;
    if let Some(c) = existing {
        if let Some(o) = &c.openai {
            found = Some(o.api_key.clone());
        }
    }
    match key_step(&found, a.keep_key, &a.key) {
        KeyStep::Offer(s) => BackendStep::KeepKey(s),
        KeyStep::Ask => BackendStep::EnterKey(Service::OpenAi),
        KeyStep::Known(api_key) => {
            let model = if realtime {
                "gpt-realtime-whisper".to_owned()
            } else {
                match a.openai_model {
                    None => {
                        return BackendStep::PickOpenAiModel;
                    },
                    Some(i) => openai_model_value(i).to_owned(),
                }
            };
            let mut sel = BackendConfigSelection::default();
            sel.openai = Some(OpenAiConfig { api_key, model });
            BackendStep::Done(sel)
        },
    }
}

fn configure_compatible_realtime(existing: Option<&Config>, a: &BackendAnswers) -> (r: BackendStep)
    requires
        a.in_range(),
    ensures
        r.ask() == backend_ask(BackendKind::CompatibleRealtime, existing, None, *a),
        r matches BackendStep::Done(sel) ==> is_selection(
            sel,
            BackendKind::CompatibleRealtime,
            existing,
            None,
            *a,
        ),
{
    let mut found: Option<String> = None;
    let mut old_url = "ws://localhost:12345/realtime".to_owned();
    let mut old_model = "Whisper-Tiny".to_owned();
    let mut old_turns: usize = 0;
    if let Some(c) = existing {
        if let Some(x) = &c.openai_compatible_realtime {
            found = clone_opt(&x.api_key);
            old_url = x.url.clone();
            old_model = x.model.clone();
            if same_text(trimmed(x.turn_detection.as_str()).as_str(), "manual-commit") {
                old_turns = 1;
            }
        }
    }
    let url = match &a.url {
        None => {
            return BackendStep::EnterUrl(old_url);
        },
        Some(u) => u.clone(),
    };
    let model = match &a.model {
        None => {
            return BackendStep::EnterModel(old_model);
        },
        Some(m) => m.clone(),
    };
    if a.profile.is_none() {
        return BackendStep::PickProfile(0);
    }
    let turn_detection = match a.turn_detection {
        None => {
            return BackendStep::PickTurnDetection(old_turns);
        },
        Some(i) => if i == 0 {
            "server-vad".to_owned()
        } else {
            "manual-commit".to_owned()
        },
    };
    let kept: bool = match (&found, a.keep_key) {
        (Some(k), Some(true)) => to_chars(k.as_str()).len() > 0,
        _ => false,
    };
    match key_step(&found, a.keep_key, &a.key) {
        KeyStep::Offer(s) => BackendStep::KeepToken(s),
        KeyStep::Ask => BackendStep::EnterToken,
        KeyStep::Known(token) => {
            let api_key = if kept || trimmed_chars(&to_chars(token.as_str())).len() > 0 {
                Some(token)
            } else {
                None
            };
            let mut sel = BackendConfigSelection::default();
            sel.openai_compatible_realtime = Some(
                OpenAiCompatibleRealtimeConfig {
                    url,
                    model,
                    profile: "lemonade".to_owned(),
                    turn_detection,
                    api_key,
                },
            );
            BackendStep::Done(sel)
        },
    }
}

fn configure_local_whisper(data_dir: &Option<String>, a: &BackendAnswers) -> (r: BackendStep)
    requires
        a.in_range(),
    ensures
        forall|existing: Option<&Config>|
            #![trigger backend_ask(BackendKind::LocalWhisper, existing, opt_text(*data_dir), *a)]
            r.ask() == backend_ask(BackendKind::LocalWhisper, existing, opt_text(*data_dir), *a),
        r matches BackendStep::Done(sel) ==> forall|existing: Option<&Config>|
            #[trigger] is_selection(
                sel,
                BackendKind::LocalWhisper,
                existing,
                opt_text(*data_dir),
                *a,
            ),
{
    let i: usize = match a.whisper_model {
        None => {
            return BackendStep::PickWhisperModel(1);
        },
        Some(i) => i,
    };
    let name = whisper_model_value(i);
    let dest = join_path(default_model_dir(data_dir).as_str(), model_file_name(name).as_str());
    match a.model_present {
        None => {
            return BackendStep::LookForModel(dest);
        },
        Some(present) => {
            if !present {
                match a.download {
                    None => {
                        return BackendStep::OfferDownload(dest);
                    },
                    Some(choice) => {
                        if choice == 0 && !a.downloaded {
                            return BackendStep::Download(model_download_url(name), dest);
                        }
                    },
                }
            }
        },
    }
    let mut sel = BackendConfigSelection::default();
    sel.local_whisper = Some(LocalWhisperConfig::new(dest));
    BackendStep::Done(sel)
}

fn configure_sidecar(existing: Option<&Config>, a: &BackendAnswers) -> (r: BackendStep)
    ensures
        r.ask() == backend_ask(BackendKind::Sidecar, existing, None, *a),
        r matches BackendStep::Done(sel) ==> is_selection(
            sel,
            BackendKind::Sidecar,
            existing,
            None,
            *a,
        ),
{
    let mut old_url = "http://127.0.0.1:8765/transcribe".to_owned();
    let mut old_model = "microsoft/VibeVoice-ASR-HF".to_owned();
    let mut api_key: Option<String> = None;
    if let Some(c) = existing {
        if let Some(x) = &c.asr_sidecar {
            old_url = x.url.clone();
            old_model = x.model.clone();
            api_key = clone_opt(&x.api_key);
        }
    }
    let url = match &a.url {
        None => {
            return BackendStep::EnterUrl(old_url);
        },
        Some(u) => u.clone(),
    };
    let model = match &a.model {
        None => {
            return BackendStep::EnterModel(old_model);
        },
        Some(m) => m.clone(),
    };
    let mut sel = BackendConfigSelection::default();
    sel.asr_sidecar = Some(AsrSidecarConfig { url, model, api_key });
    BackendStep::Done(sel)
}

/// Configure the selected backend: the next question, or the finished section,
/// given the answers so far. What an existing configuration holds is offered as
/// the default.
pub fn configure_backend(
    backend: &str,
    existing: Option<&Config>,
    data_dir: &Option<String>,
    answers: &BackendAnswers,
) -> (r: BackendStep)
    requires
        answers.in_range(),
    ensures
        r.ask() == backend_ask(backend_kind(backend@), existing, opt_text(*data_dir), *answers),
        r matches BackendStep::Done(sel) ==> is_selection(
            sel,
            backend_kind(backend@),
            existing,
            opt_text(*data_dir),
            *answers,
        ),
{
    match kind_of(backend) {
        BackendKind::Deepgram => configure_deepgram(existing, answers),
        BackendKind::Groq => configure_groq(existing, answers),
        BackendKind::OpenAi => configure_openai(false, existing, answers),
        BackendKind::OpenAiRealtime => configure_openai(true, existing, answers),
        BackendKind::CompatibleRealtime => configure_compatible_realtime(existing, answers),
        BackendKind::LocalWhisper => configure_local_whisper(data_dir, answers),
        BackendKind::Sidecar => configure_sidecar(existing, answers),
        BackendKind::Other => BackendStep::Done(BackendConfigSelection::default()),
    }
}

/// Whether the answer to a question is missing.
pub open spec fn unanswered(ask: BackendAsk, a: BackendAnswers) -> bool {
    match ask {
        BackendAsk::KeepKey(_) | BackendAsk::KeepToken(_) => a.keep_key is None,
        BackendAsk::EnterKey(_) | BackendAsk::EnterToken => a.key is None,
        BackendAsk::EnterUrl(_) => a.url is None,
        BackendAsk::EnterModel(_) => a.model is None,
        BackendAsk::PickOpenAiModel => a.openai_model is None,
        BackendAsk::PickProfile(_) => a.profile is None,
        BackendAsk::PickTurnDetection(_) => a.turn_detection is None,
        BackendAsk::PickWhisperModel(_) => a.whisper_model is None,
        BackendAsk::LookForModel(_) => a.model_present is None,
        BackendAsk::OfferDownload(_) => a.download is None,
        BackendAsk::Download(_, _) => !a.downloaded,
        BackendAsk::Done => false,
    }
}

/// No question is asked twice: each step but the last asks for something that
/// is not answered yet. So configuring a backend ends.
pub proof fn nothing_is_asked_twice(
    kind: BackendKind,
    existing: Option<&Config>,
    data_dir: Option<Seq<char>>,
    a: BackendAnswers,
)
    ensures
        ({
            let ask = backend_ask(kind, existing, data_dir, a);
            ask is Done || unanswered(ask, a)
        }),
{
}

/// A key of the configuration is only ever shown masked, and one that is kept
/// is taken over as it is.
pub proof fn found_key_is_masked_or_kept(found: Seq<char>, keep: Option<bool>, typed: Option<Seq<char>>)
    requires
        found.len() > 0,
    ensures
        keep is None ==> key_state(Some(found), keep, typed) == KeyState::Offer(masked_key(found)),
        keep == Some(true) ==> key_state(Some(found), keep, typed) == KeyState::Known(found),
{
}

} // verus!
