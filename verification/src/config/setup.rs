//! The one-time setup: the questions it asks beside the backend's, the order
//! of its steps, and the configuration it writes.

use crate::config::backend_setup::BackendConfigSelection;
use crate::config::types::{
    AudioConfig, Config, GeneralConfig, InjectorBackend, InputConfig, LlmConfig, OverlayConfig,
};
use crate::text::{opt_text, same_text, text_list, texts, to_chars};
use vstd::prelude::*;

verus! {

/// The codes of the languages that are offered.
pub open spec fn language_code_list() -> Seq<Seq<char>> {
    seq![
        "en"@,
        "auto"@,
        "es"@,
        "fr"@,
        "de"@,
        "pt"@,
        "it"@,
        "nl"@,
        "ja"@,
        "zh"@,
        "ko"@,
        "ar"@,
        "hi"@,
        "ru"@,
        "pl"@,
        "tr"@,
        "sv"@,
        "uk"@,
    ]
}

/// The codes of the languages that are offered.
pub fn language_codes() -> (r: Vec<String>)
    ensures
        texts(r@) == language_code_list(),
{
    let r = text_list(
        &[
            "en",
            "auto",
            "es",
            "fr",
            "de",
            "pt",
            "it",
            "nl",
            "ja",
            "zh",
            "ko",
            "ar",
            "hi",
            "ru",
            "pl",
            "tr",
            "sv",
            "uk",
        ],
    );
    assert(texts(r@) =~= language_code_list());
    r
}

/// The names of the languages that are offered.
pub open spec fn language_name_list() -> Seq<Seq<char>> {
    seq![
        "English"@,
        "Auto-detect"@,
        "Spanish"@,
        "French"@,
        "German"@,
        "Portuguese"@,
        "Italian"@,
        "Dutch"@,
        "Japanese"@,
        "Chinese"@,
        "Korean"@,
        "Arabic"@,
        "Hindi"@,
        "Russian"@,
        "Polish"@,
        "Turkish"@,
        "Swedish"@,
        "Ukrainian"@,
    ]
}

/// The names of the languages that are offered.
pub fn language_names() -> (r: Vec<String>)
    ensures
        texts(r@) == language_name_list(),
{
    let r = text_list(
        &[
            "English",
            "Auto-detect",
            "Spanish",
            "French",
            "German",
            "Portuguese",
            "Italian",
            "Dutch",
            "Japanese",
            "Chinese",
            "Korean",
            "Arabic",
            "Hindi",
            "Russian",
            "Polish",
            "Turkish",
            "Swedish",
            "Ukrainian",
        ],
    );
    assert(texts(r@) =~= language_name_list());
    r
}

/// `n` spaces.
pub open spec fn spaces(n: nat) -> Seq<char> {
    Seq::new(n, |i: int| ' ')
}

/// `s` with spaces after it up to a width.
pub open spec fn padded(s: Seq<char>, width: int) -> Seq<char> {
    if s.len() < width {
        s + spaces((width - s.len()) as nat)
    } else {
        s
    }
}

fn pad_right(s: &str, width: usize) -> (r: String)
    ensures
        r@ == padded(s@, width as int),
{
    let mut r = s.to_owned();
    let mut n: usize = to_chars(s).len();
    let ghost start = n;
    assert(s@ + spaces(0) =~= s@);
    while n < width
        invariant
            start == s@.len(),
            start <= n,
            start < width ==> n <= width,
            start >= width ==> n == start,
            r@ == s@ + spaces((n - start) as nat),
        decreases width - n,
    {
        let ghost before = r@;
        r.push(' ');
        n += 1;
        assert(r@ =~= s@ + spaces((n - start) as nat));
    }
    r
}

/// A language as it is offered.
pub open spec fn language_label(i: int) -> Seq<char> {
    padded(language_name_list()[i], 15) + " ("@ + language_code_list()[i] + ")"@
}

/// The languages as they are offered, and the way to type another code.
pub open spec fn language_labels() -> Seq<Seq<char>> {
    Seq::new(language_code_list().len(), |i: int| language_label(i)).push(
        "Other (enter ISO 639-1 code)"@,
    )
}

/// The languages as they are offered, and the way to type another code.
pub fn language_choices() -> (r: Vec<String>)
    ensures
        texts(r@) == language_labels(),
{
    let codes = language_codes();
    let names = language_names();
    assert(codes@.len() == texts(codes@).len());
    assert(names@.len() == texts(names@).len());
    let mut r: Vec<String> = Vec::new();
    let mut i: usize = 0;
    while i < codes.len()
        invariant
            i <= codes@.len(),
            codes@.len() == names@.len(),
            texts(codes@) == language_code_list(),
            texts(names@) == language_name_list(),
            texts(r@) == Seq::new(i as nat, |j: int| language_label(j)),
        decreases codes@.len() - i,
    {
        let ghost before = texts(r@);
        assert(names@[i as int]@ == texts(names@)[i as int]);
        assert(codes@[i as int]@ == texts(codes@)[i as int]);
        let mut label = pad_right(names[i].as_str(), 15);
        label.push_str(" (");
        label.push_str(codes[i].as_str());
        label.push_str(")");
        assert(label@ == language_label(i as int));
        r.push(label);
        assert(texts(r@) =~= before.push(language_label(i as int)));
        i += 1;
        assert(texts(r@) =~= Seq::new(i as nat, |j: int| language_label(j)));
    }
    let ghost before = texts(r@);
    r.push("Other (enter ISO 639-1 code)".to_owned());
    assert(texts(r@) =~= before.push("Other (enter ISO 639-1 code)"@));
    r
}

/// The index of the first of `list` from `i` on that equals `x`, or 0.
pub open spec fn index_or_first(list: Seq<Seq<char>>, x: Seq<char>, i: int) -> int
    decreases list.len() - i,
{
    if i >= list.len() {
        0
    } else if list[i] == x {
        i
    } else {
        index_or_first(list, x, i + 1)
    }
}

fn find_or_first(list: &[String], x: &str) -> (r: usize)
    ensures
        r == index_or_first(texts(list@), x@, 0),
{
    let mut i: usize = 0;
    while i < list.len()
        invariant
            i <= list@.len(),
            index_or_first(texts(list@), x@, 0) == index_or_first(texts(list@), x@, i as int),
        decreases list@.len() - i,
    {
        assert(texts(list@)[i as int] == list@[i as int]@);
        if same_text(list[i].as_str(), x) {
            return i;
        }
        i += 1;
    }
    0
}

/// What to do next to choose a language.
#[derive(Debug)]
pub enum LanguageStep {
    /// Ask for an entry of the list, with a default index.
    Pick(usize),
    /// Ask for a code, with a default.
    EnterCode(String),
    /// The code of the language.
    Done(String),
}

/// A step with what it shows.
pub enum LanguageAsk {
    Pick(int),
    EnterCode(Seq<char>),
    Done(Seq<char>),
}

impl LanguageStep {
    /// What a step asks for.
    pub open spec fn ask(self) -> LanguageAsk {
        match self {
            LanguageStep::Pick(i) => LanguageAsk::Pick(i as int),
            LanguageStep::EnterCode(s) => LanguageAsk::EnterCode(s@),
            LanguageStep::Done(s) => LanguageAsk::Done(s@),
        }
    }
}

/// The language in use: that of the configuration at hand, or English.
pub open spec fn language_in_use(existing: Option<&Config>) -> Seq<char> {
    match existing {
        Some(c) => c.general.language@,
        None => "en"@,
    }
}

/// The next step to choose a language, after the answers given so far.
pub open spec fn language_ask(
    existing: Option<&Config>,
    selection: Option<usize>,
    code: Option<Seq<char>>,
) -> LanguageAsk {
    match selection {
        None => LanguageAsk::Pick(
            index_or_first(language_code_list(), language_in_use(existing), 0),
        ),
        Some(i) => if i < language_code_list().len() {
            LanguageAsk::Done(language_code_list()[i as int])
        } else {
            match code {
                None => LanguageAsk::EnterCode(language_in_use(existing)),
                Some(s) => LanguageAsk::Done(s),
            }
        },
    }
}

/// Ask the user for their preferred language: one of the list, or a code that
/// is typed.
pub fn select_language(
    existing: Option<&Config>,
    selection: Option<usize>,
    code: &Option<String>,
) -> (r: LanguageStep)
    ensures
        r.ask() == language_ask(existing, selection, opt_text(*code)),
{
    let current = match existing {
        Some(c) => c.general.language.clone(),
        None => "en".to_owned(),
    };
    let codes = language_codes();
    assert(codes@.len() == texts(codes@).len());
    match selection {
        None => LanguageStep::Pick(find_or_first(&codes, current.as_str())),
        Some(i) => if i < codes.len() {
            assert(codes@[i as int]@ == texts(codes@)[i as int]);
            LanguageStep::Done(codes[i].clone())
        } else {
            match code {
                None => LanguageStep::EnterCode(current),
                Some(s) => LanguageStep::Done(s.clone()),
            }
        },
    }
}

/// The injection backends as they are offered.
pub open spec fn injector_labels() -> Seq<Seq<char>> {
    seq![
        "Auto        (recommended — Wayland virtual keyboard, falls back to uinput)"@,
        "uinput      (evdev/uinput; layout-dependent on Wayland)"@,
        "wayland-vk  (force zwp_virtual_keyboard_v1 — fixes bilingual typing on Wayland)"@,
    ]
}

/// The injection backends as they are offered.
pub fn injector_choices() -> (r: Vec<String>)
    ensures
        texts(r@) == injector_labels(),
{
    let r = text_list(
        &[
            "Auto        (recommended — Wayland virtual keyboard, falls back to uinput)",
            "uinput      (evdev/uinput; layout-dependent on Wayland)",
            "wayland-vk  (force zwp_virtual_keyboard_v1 — fixes bilingual typing on Wayland)",
        ],
    );
    assert(texts(r@) =~= injector_labels());
    r
}

/// Where an injection backend stands in the list of choices.
pub open spec fn injector_index(backend: InjectorBackend) -> int {
    match backend {
        InjectorBackend::Auto => 0,
        InjectorBackend::Uinput => 1,
        InjectorBackend::WaylandVk => 2,
    }
}

/// The index that is offered first: that of the configured backend, where one
/// is known.
pub fn default_injector_index(existing: Option<&Config>) -> (r: usize)
    ensures
        r < 3,
        r == (match existing {
            Some(c) => injector_index(c.input.backend),
            None => 0,
        }),
{
    match existing {
        None => 0,
        Some(c) => match c.input.backend {
            InjectorBackend::Auto => 0,
            InjectorBackend::Uinput => 1,
            InjectorBackend::WaylandVk => 2,
        },
    }
}

/// The injection backend at an index of the list.
pub fn select_injector_backend(selection: usize) -> (r: InjectorBackend)
    requires
        selection < 3,
    ensures
        injector_index(r) == selection,
{
    match selection {
        0 => InjectorBackend::Auto,
        1 => InjectorBackend::Uinput,
        _ => InjectorBackend::WaylandVk,
    }
}

/// The overlay themes as they are offered.
pub open spec fn overlay_theme_labels() -> Seq<Seq<char>> {
    seq![
        "Carbon  — monochrome, terminal-clean (recommended)"@,
        "Ember   — warm amber \"tally light\""@,
        "Cyan    — electric blue, audio-equipment vibe"@,
    ]
}

/// The overlay themes as they are offered.
pub fn overlay_theme_choices() -> (r: Vec<String>)
    ensures
        texts(r@) == overlay_theme_labels(),
{
    let r = text_list(
        &[
            "Carbon  — monochrome, terminal-clean (recommended)",
            "Ember   — warm amber \"tally light\"",
            "Cyan    — electric blue, audio-equipment vibe",
        ],
    );
    assert(texts(r@) =~= overlay_theme_labels());
    r
}

/// The overlay theme at an index of the list.
pub open spec fn overlay_theme(selection: int) -> Seq<char> {
    if selection == 1 {
        "ember"@
    } else if selection == 2 {
        "cyan"@
    } else {
        "carbon"@
    }
}

/// The overlay theme at an index of the list. It is always a named theme:
/// custom colors are set by hand.
pub fn pick_overlay_theme(selection: usize) -> (r: String)
    ensures
        r@ == overlay_theme(selection as int),
{
    match selection {
        1 => "ember".to_owned(),
        2 => "cyan".to_owned(),
        _ => "carbon".to_owned(),
    }
}

/// The overlay's section where the overlay is wanted: the chosen theme, and
/// the default size.
pub fn configure_overlay(enable: bool, theme: usize) -> (r: Option<OverlayConfig>)
    ensures
        match r {
            None => !enable,
            Some(o) => {
                &&& enable
                &&& o.theme@ == overlay_theme(theme as int)
                &&& o.width == 100
                &&& o.height == 40
                &&& o.colors is None
            },
        },
{
    if !enable {
        return None;
    }
    let mut cfg = OverlayConfig::default();
    cfg.theme = pick_overlay_theme(theme);
    Some(cfg)
}

/// What the setup found out.
#[derive(Debug, Clone)]
pub struct SetupAnswers {
    pub backend: String,
    pub sections: BackendConfigSelection,
    pub language: String,
    pub remove_filler_words: bool,
    pub audio_feedback: bool,
    pub overlay: bool,
    pub overlay_config: Option<OverlayConfig>,
    pub injector_backend: InjectorBackend,
    pub llm: Option<LlmConfig>,
}

/// The configuration that the setup writes: what was answered, and the default
/// of everything else.
pub fn setup_config(a: SetupAnswers) -> (r: Config)
    ensures
        r.general.backend == a.backend,
        r.general.language == a.language,
        r.general.silence_timeout_ms == 2000,
        r.general.notify,
        r.general.remove_filler_words == a.remove_filler_words,
        r.general.filler_words@.len() == 0,
        r.general.audio_feedback == a.audio_feedback,
        r.general.audio_feedback_volume == crate::config::types::HALF_VOLUME_BITS,
        r.general.vocabulary@.len() == 0,
        r.general.prompt is None,
        r.general.tray,
        r.general.overlay == a.overlay,
        r.audio.device@ == "default"@,
        r.input == (InputConfig {
            key_delay_ms: 2,
            backend: a.injector_backend,
            paste: false,
            clipboard_fallback: false,
            clipboard_only: false,
        }),
        r.deepgram == a.sections.deepgram,
        r.groq == a.sections.groq,
        r.openai == a.sections.openai,
        r.local_whisper == a.sections.local_whisper,
        r.local_vosk is None,
        r.local_parakeet is None,
        r.asr_sidecar == a.sections.asr_sidecar,
        r.openai_compatible_realtime == a.sections.openai_compatible_realtime,
        r.llm == a.llm,
        r.tts is None,
        r.hotkeys is None,
        r.overlay == (if a.overlay {
            a.overlay_config
        } else {
            None
        }),
        r.hooks is None,
        r.llm_commands@.len() == 0,
{
    let mut general = GeneralConfig::default();
    general.backend = a.backend;
    general.language = a.language;
    general.remove_filler_words = a.remove_filler_words;
    general.audio_feedback = a.audio_feedback;
    general.overlay = a.overlay;
    let mut input = InputConfig::default();
    input.backend = a.injector_backend;
    Config {
        general,
        audio: AudioConfig::default(),
        input,
        deepgram: a.sections.deepgram,
        groq: a.sections.groq,
        openai: a.sections.openai,
        local_whisper: a.sections.local_whisper,
        local_vosk: None,
        local_parakeet: None,
        asr_sidecar: a.sections.asr_sidecar,
        openai_compatible_realtime: a.sections.openai_compatible_realtime,
        llm: a.llm,
        tts: None,
        hotkeys: None,
        overlay: if a.overlay {
            a.overlay_config
        } else {
            None
        },
        hooks: None,
        llm_commands: Vec::new(),
    }
}

/// The stages of the setup.
#[derive(Debug, Clone, Copy, PartialEq, Eq, Structural)]
pub enum SetupStage {
    /// Ask whether the configuration at hand is kept.
    OfferExisting,
    Backend,
    BackendDetails,
    Language,
    Microphone,
    Extras,
    Overlay,
    Injector,
    Llm,
    WriteConfig,
    Permissions,
    Service,
    Keybinding,
    /// Print what was done.
    Summary,
    Finished,
}

/// The place of a stage in the setup.
pub open spec fn stage_rank(s: SetupStage) -> int {
    match s {
        SetupStage::OfferExisting => 0,
        SetupStage::Backend => 1,
        SetupStage::BackendDetails => 2,
        SetupStage::Language => 3,
        SetupStage::Microphone => 4,
        SetupStage::Extras => 5,
        SetupStage::Overlay => 6,
        SetupStage::Injector => 7,
        SetupStage::Llm => 8,
        SetupStage::WriteConfig => 9,
        SetupStage::Permissions => 10,
        SetupStage::Service => 11,
        SetupStage::Keybinding => 12,
        SetupStage::Summary => 13,
        SetupStage::Finished => 14,
    }
}

/// Whether `r` is the stage after `stage`. The first answer to the offer to
/// keep the configuration at hand keeps it, and leaves only the summary. All
/// other stages follow in order, and the last one stays.
pub open spec fn stage_follows(stage: SetupStage, choice: usize, r: SetupStage) -> bool {
    if stage == SetupStage::OfferExisting && choice == 0 {
        r == SetupStage::Summary
    } else if stage == SetupStage::Finished {
        r == SetupStage::Finished
    } else {
        stage_rank(r) == stage_rank(stage) + 1
    }
}

/// Whether `run` is a course of the setup, with these answers.
pub open spec fn is_course(run: Seq<SetupStage>, choices: Seq<usize>) -> bool {
    &&& run.len() == choices.len() + 1
    &&& forall|i: int|
        0 <= i < choices.len() ==> stage_follows(run[i], #[trigger] choices[i], run[i + 1])
}

/// A configuration that the user keeps is left alone: the setup neither writes
/// it nor asks or changes anything else.
pub proof fn kept_configuration_is_left_alone(
    run: Seq<SetupStage>,
    choices: Seq<usize>,
    i: int,
)
    requires
        is_course(run, choices),
        choices.len() > 0,
        run[0] == SetupStage::OfferExisting,
        choices[0] == 0,
        0 < i < run.len(),
    ensures
        run[i] == SetupStage::Summary || run[i] == SetupStage::Finished,
    decreases i,
{
    if i > 1 {
        kept_configuration_is_left_alone(run, choices, i - 1);
        assert(stage_follows(run[i - 1], choices[i - 1], run[i]));
    } else {
        assert(stage_follows(run[0], choices[0], run[1]));
    }
}

/// The first stage: a configuration at hand is offered before anything is
/// asked.
pub fn first_stage(config_found: bool) -> (r: SetupStage)
    ensures
        r == (if config_found {
            SetupStage::OfferExisting
        } else {
            SetupStage::Backend
        }),
{
    if config_found {
        SetupStage::OfferExisting
    } else {
        SetupStage::Backend
    }
}

/// The stage after `stage`. `choice` is the answer to the offer to keep the
/// configuration at hand.
pub fn next_stage(stage: SetupStage, choice: usize) -> (r: SetupStage)
    ensures
        stage_follows(stage, choice, r),
{
    match stage {
        SetupStage::OfferExisting => if choice == 0 {
            SetupStage::Summary
        } else {
            SetupStage::Backend
        },
        SetupStage::Backend => SetupStage::BackendDetails,
        SetupStage::BackendDetails => SetupStage::Language,
        SetupStage::Language => SetupStage::Microphone,
        SetupStage::Microphone => SetupStage::Extras,
        SetupStage::Extras => SetupStage::Overlay,
        SetupStage::Overlay => SetupStage::Injector,
        SetupStage::Injector => SetupStage::Llm,
        SetupStage::Llm => SetupStage::WriteConfig,
        SetupStage::WriteConfig => SetupStage::Permissions,
        SetupStage::Permissions => SetupStage::Service,
        SetupStage::Service => SetupStage::Keybinding,
        SetupStage::Keybinding => SetupStage::Summary,
        SetupStage::Summary => SetupStage::Finished,
        SetupStage::Finished => SetupStage::Finished,
    }
}

} // verus!
