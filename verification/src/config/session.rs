//! A session of the configuration editor: how it starts, what its menu offers,
//! and what a save does and in which order.

use crate::config::save_plan::{
    config_terms, file_terms, untouched_vocabulary_stays, vocabulary_save_plan, VocabularyBaseline,
};
use crate::config::types::{
    AudioConfig, Config, ConfigWarning, GeneralConfig, InputConfig, WhisrsError,
};
use crate::config::vocabulary::{
    first_occurrences, merge_vocabulary, rendered, vocabulary_file_contents,
};
use crate::service::{restart_advice, RestartAdvice, RestartOutcome, ServiceManager};
use crate::text::{clone_texts, opt_text, text_list, texts};
use vstd::prelude::*;

verus! {

/// The entries of the editor's menu.
#[derive(Debug, Clone, Copy, PartialEq, Eq, Structural)]
pub enum MenuEntry {
    Backend,
    Language,
    Behavior,
    FillerWords,
    Vocabulary,
    AudioDevice,
    KeyDelay,
    ClipboardFallback,
    ClipboardOnly,
    Hotkeys,
    TrayOverlay,
    RecordingHooks,
    Llm,
    LlmCommands,
    ShowConfig,
    OpenEditor,
    Separator,
    Save,
    Discard,
}

/// The entries of the menu as they are offered.
pub open spec fn menu_labels() -> Seq<Seq<char>> {
    seq![
        "Backend & API keys"@,
        "Language"@,
        "Behavior (silence timeout, notifications, audio feedback)"@,
        "Filler words"@,
        "Vocabulary & prompt"@,
        "Audio device"@,
        "Keyboard injection (key delay)"@,
        "Clipboard fallback (copy transcript to clipboard)"@,
        "Clipboard-only mode (no injection)"@,
        "Hotkeys"@,
        "Tray & overlay"@,
        "Recording hooks"@,
        "Command mode (LLM)"@,
        "Custom LLM commands"@,
        "Show full config (masked)"@,
        "Open in $EDITOR"@,
        "─────────"@,
        "Save & exit"@,
        "Discard & exit"@,
    ]
}

/// The entries of the menu as they are offered.
pub fn menu_choices() -> (r: Vec<String>)
    ensures
        texts(r@) == menu_labels(),
{
    let r = text_list(
        &[
            "Backend & API keys",
            "Language",
            "Behavior (silence timeout, notifications, audio feedback)",
            "Filler words",
            "Vocabulary & prompt",
            "Audio device",
            "Keyboard injection (key delay)",
            "Clipboard fallback (copy transcript to clipboard)",
            "Clipboard-only mode (no injection)",
            "Hotkeys",
            "Tray & overlay",
            "Recording hooks",
            "Command mode (LLM)",
            "Custom LLM commands",
            "Show full config (masked)",
            "Open in $EDITOR",
            "─────────",
            "Save & exit",
            "Discard & exit",
        ],
    );
    assert(texts(r@) =~= menu_labels());
    r
}

/// Where an entry stands in the menu.
pub open spec fn menu_index(e: MenuEntry) -> int {
    match e {
        MenuEntry::Backend => 0,
        MenuEntry::Language => 1,
        MenuEntry::Behavior => 2,
        MenuEntry::FillerWords => 3,
        MenuEntry::Vocabulary => 4,
        MenuEntry::AudioDevice => 5,
        MenuEntry::KeyDelay => 6,
        MenuEntry::ClipboardFallback => 7,
        MenuEntry::ClipboardOnly => 8,
        MenuEntry::Hotkeys => 9,
        MenuEntry::TrayOverlay => 10,
        MenuEntry::RecordingHooks => 11,
        MenuEntry::Llm => 12,
        MenuEntry::LlmCommands => 13,
        MenuEntry::ShowConfig => 14,
        MenuEntry::OpenEditor => 15,
        MenuEntry::Separator => 16,
        MenuEntry::Save => 17,
        MenuEntry::Discard => 18,
    }
}

/// The entry at an index of the menu.
pub fn menu_entry(selection: usize) -> (r: MenuEntry)
    requires
        selection < menu_labels().len(),
    ensures
        menu_index(r) == selection,
{
    match selection {
        0 => MenuEntry::Backend,
        1 => MenuEntry::Language,
        2 => MenuEntry::Behavior,
        3 => MenuEntry::FillerWords,
        4 => MenuEntry::Vocabulary,
        5 => MenuEntry::AudioDevice,
        6 => MenuEntry::KeyDelay,
        7 => MenuEntry::ClipboardFallback,
        8 => MenuEntry::ClipboardOnly,
        9 => MenuEntry::Hotkeys,
        10 => MenuEntry::TrayOverlay,
        11 => MenuEntry::RecordingHooks,
        12 => MenuEntry::Llm,
        13 => MenuEntry::LlmCommands,
        14 => MenuEntry::ShowConfig,
        15 => MenuEntry::OpenEditor,
        16 => MenuEntry::Separator,
        17 => MenuEntry::Save,
        _ => MenuEntry::Discard,
    }
}

/// Whether the menu is left after an entry: the changes were discarded, or
/// they were saved. A save that was refused returns to the menu, with the
/// changes still at hand.
pub fn leaves_menu(entry: MenuEntry, saved: bool) -> (r: bool)
    ensures
        r == (entry == MenuEntry::Discard || (entry == MenuEntry::Save && saved)),
{
    match entry {
        MenuEntry::Discard => true,
        MenuEntry::Save => saved,
        _ => false,
    }
}

/// Whether a configuration holds the defaults and no section.
pub open spec fn is_default_config(c: Config) -> bool {
    &&& c.general.backend@ == "groq"@
    &&& c.general.language@ == "en"@
    &&& c.general.silence_timeout_ms == 2000
    &&& c.general.notify
    &&& !c.general.remove_filler_words
    &&& c.general.filler_words@.len() == 0
    &&& !c.general.audio_feedback
    &&& c.general.audio_feedback_volume == crate::config::types::HALF_VOLUME_BITS
    &&& c.general.vocabulary@.len() == 0
    &&& c.general.prompt is None
    &&& c.general.tray
    &&& !c.general.overlay
    &&& c.audio.device@ == "default"@
    &&& c.input == InputConfig {
        key_delay_ms: 2,
        backend: crate::config::types::InjectorBackend::Auto,
        paste: false,
        clipboard_fallback: false,
        clipboard_only: false,
    }
    &&& c.deepgram is None
    &&& c.groq is None
    &&& c.openai is None
    &&& c.local_whisper is None
    &&& c.local_vosk is None
    &&& c.local_parakeet is None
    &&& c.asr_sidecar is None
    &&& c.openai_compatible_realtime is None
    &&& c.llm is None
    &&& c.tts is None
    &&& c.hotkeys is None
    &&& c.overlay is None
    &&& c.hooks is None
    &&& c.llm_commands@.len() == 0
}

/// Build a fresh configuration from defaults, where there is none yet.
pub fn default_config() -> (r: Config)
    ensures
        is_default_config(r),
{
    Config {
        general: GeneralConfig::default(),
        audio: AudioConfig::default(),
        input: InputConfig::default(),
        deepgram: None,
        groq: None,
        openai: None,
        local_whisper: None,
        local_vosk: None,
        local_parakeet: None,
        asr_sidecar: None,
        openai_compatible_realtime: None,
        llm: None,
        tts: None,
        hotkeys: None,
        overlay: None,
        hooks: None,
        llm_commands: Vec::new(),
    }
}

/// What came of reading the vocabulary file.
#[derive(Debug)]
pub enum VocabularyRead {
    /// Its terms.
    Terms(Vec<String>),
    /// There is no such file.
    Missing,
    /// It is there, and cannot be read.
    Unreadable,
}

/// What the editor works on.
#[derive(Debug, Clone)]
pub struct ConfigSession {
    pub config: Config,
    /// Whether the configuration was made from defaults.
    pub fresh: bool,
    pub baseline: VocabularyBaseline,
}

/// The vocabulary that a session starts with: the configuration's own, and
/// after it that of the file where the file was read.
pub open spec fn session_terms(own: Seq<Seq<char>>, vocabulary: VocabularyRead) -> Seq<Seq<char>> {
    match vocabulary {
        VocabularyRead::Terms(v) => first_occurrences(
            own + texts(v@),
            (own.len() + v@.len()) as nat,
        ),
        _ => own,
    }
}

/// Whether `s` is the session that starts from configuration `c`.
pub open spec fn starts_from(s: ConfigSession, c: Config, vocabulary: VocabularyRead) -> bool {
    &&& s.config == Config {
        general: GeneralConfig { vocabulary: s.config.general.vocabulary, ..c.general },
        ..c
    }
    &&& texts(s.config.general.vocabulary@) == session_terms(
        texts(c.general.vocabulary@),
        vocabulary,
    )
    &&& s.baseline.use_file == (vocabulary is Terms)
    &&& texts(s.baseline.config_toml@) == texts(c.general.vocabulary@)
    &&& texts(s.baseline.merged@) == texts(s.config.general.vocabulary@)
}

/// Start a session: from the configuration at hand, or from defaults where
/// there is none. The editor works on the merged vocabulary.
pub fn start_session(existing: Option<Config>, vocabulary: VocabularyRead) -> (r: ConfigSession)
    ensures
        r.fresh == (existing is None),
        match existing {
            Some(c) => starts_from(r, c, vocabulary),
            None => exists|c: Config| #[trigger] is_default_config(c) && starts_from(
                r,
                c,
                vocabulary,
            ),
        },
{
    let fresh = existing.is_none();
    let mut config = match existing {
        Some(c) => c,
        None => default_config(),
    };
    let ghost start = config;
    let own = clone_texts(&config.general.vocabulary);
    let use_file = match vocabulary {
        VocabularyRead::Terms(terms) => {
            let mine = clone_texts(&own);
            config.general.vocabulary = merge_vocabulary(mine, terms);
            true
        },
        VocabularyRead::Missing => false,
        VocabularyRead::Unreadable => false,
    };
    let merged = clone_texts(&config.general.vocabulary);
    let r = ConfigSession {
        config,
        fresh,
        baseline: VocabularyBaseline { use_file, config_toml: own, merged },
    };
    assert(starts_from(r, start, vocabulary));
    r
}

/// A session that is saved as it started changes no vocabulary: the file is
/// left alone, and the configuration gets back its own half.
pub proof fn saving_at_once_changes_no_vocabulary(
    s: ConfigSession,
    c: Config,
    vocabulary: VocabularyRead,
)
    requires
        starts_from(s, c, vocabulary),
    ensures
        ({
            let current = texts(s.config.general.vocabulary@);
            let merged = texts(s.baseline.merged@);
            let own = texts(s.baseline.config_toml@);
            &&& file_terms(s.baseline.use_file, merged, current) is None
            &&& config_terms(s.baseline.use_file, own, merged, current) == texts(
                c.general.vocabulary@,
            )
        }),
{
    let current = texts(s.config.general.vocabulary@);
    if s.baseline.use_file {
        untouched_vocabulary_stays(true, texts(s.baseline.config_toml@), current, current);
    }
}

/// Everything that a save writes.
#[derive(Debug)]
pub struct SavePlan {
    /// What the vocabulary file is written with, or `None` to leave it alone.
    pub vocabulary_file: Option<String>,
    /// What the configuration is written with.
    pub config: Config,
}

/// What a save writes to the vocabulary file, if it does.
pub open spec fn saved_vocabulary(s: ConfigSession) -> Option<Seq<char>> {
    let current = texts(s.config.general.vocabulary@);
    match file_terms(s.baseline.use_file, texts(s.baseline.merged@), current) {
        Some(terms) => Some(rendered(terms, terms.len())),
        None => None,
    }
}

/// Decide what a save writes. Of the configuration only the vocabulary is
/// decided here; everything else is written as it is.
pub fn plan_save(session: ConfigSession) -> (r: SavePlan)
    ensures
        opt_text(r.vocabulary_file) == saved_vocabulary(session),
        texts(r.config.general.vocabulary@) == config_terms(
            session.baseline.use_file,
            texts(session.baseline.config_toml@),
            texts(session.baseline.merged@),
            texts(session.config.general.vocabulary@),
        ),
        r.config == (Config {
            general: GeneralConfig {
                vocabulary: r.config.general.vocabulary,
                ..session.config.general
            },
            ..session.config
        }),
{
    let plan = vocabulary_save_plan(&session.baseline, &session.config.general.vocabulary);
    let vocabulary_file = match &plan.vocabulary_txt {
        Some(terms) => {
            assert(texts(terms@).len() == terms@.len());
            Some(vocabulary_file_contents(terms))
        },
        None => None,
    };
    let mut config = session.config;
    config.general.vocabulary = plan.config_toml;
    SavePlan { vocabulary_file, config }
}

/// What is known so far of a save. A field is `None`, or false, until its step
/// was made.
#[derive(Debug, Clone)]
pub struct SaveProgress {
    /// Whether the vocabulary file could be written.
    pub vocabulary_written: Option<bool>,
    /// Whether the configuration could be written.
    pub config_written: Option<bool>,
    /// Whether the permissions of the configuration were looked at.
    pub mode_read: bool,
    /// The permission bits of the configuration, where they could be read.
    pub mode: Option<u32>,
    /// Whether the permissions were restricted.
    pub restricted: bool,
    /// What came of restarting the daemon.
    pub restart: Option<RestartOutcome>,
}

impl SaveProgress {
    /// Nothing done yet.
    pub fn new() -> (r: Self)
        ensures
            r == (SaveProgress {
                vocabulary_written: None,
                config_written: None,
                mode_read: false,
                mode: None,
                restricted: false,
                restart: None,
            }),
    {
        SaveProgress {
            vocabulary_written: None,
            config_written: None,
            mode_read: false,
            mode: None,
            restricted: false,
            restart: None,
        }
    }
}

/// What to do next in a save.
#[derive(Debug)]
pub enum SaveStep {
    /// The configuration is invalid, for this reason: nothing is written, and
    /// the menu comes back.
    Refuse(String),
    /// Write the text to the vocabulary file: path and text.
    WriteVocabulary(String, String),
    /// Write the configuration to the path.
    WriteConfig(String),
    /// The save failed, with this explanation.
    Fail(String),
    /// Read the permission bits of the file.
    ReadMode(String),
    /// Restrict the file to its owner.
    Restrict(String),
    /// Restart the daemon.
    Restart,
    /// The save is done: what the user is told of the restart, and whether
    /// the setup is recommended, since the configuration is a fresh one.
    Done(RestartAdvice, bool),
}

/// A step with what it works on.
pub enum SaveAsk {
    Refuse(Seq<char>),
    WriteVocabulary(Seq<char>, Seq<char>),
    WriteConfig(Seq<char>),
    Fail(Seq<char>),
    ReadMode(Seq<char>),
    Restrict(Seq<char>),
    Restart,
    Done(RestartAdvice, bool),
}

impl SaveStep {
    /// What a step asks for.
    pub open spec fn ask(self) -> SaveAsk {
        match self {
            SaveStep::Refuse(s) => SaveAsk::Refuse(s@),
            SaveStep::WriteVocabulary(a, b) => SaveAsk::WriteVocabulary(a@, b@),
            SaveStep::WriteConfig(s) => SaveAsk::WriteConfig(s@),
            SaveStep::Fail(s) => SaveAsk::Fail(s@),
            SaveStep::ReadMode(s) => SaveAsk::ReadMode(s@),
            SaveStep::Restrict(s) => SaveAsk::Restrict(s@),
            SaveStep::Restart => SaveAsk::Restart,
            SaveStep::Done(a, b) => SaveAsk::Done(a, b),
        }
    }
}

/// What a failed save is explained with. Where the vocabulary was already
/// written, the explanation says so.
pub open spec fn config_failure(vocabulary_path: Option<Seq<char>>) -> Seq<char> {
    match vocabulary_path {
        Some(p) => "failed to write config: your vocabulary edits were already saved to "@ + p
            + ", but config.toml was not updated"@,
        None => "failed to write config"@,
    }
}

/// The next step of a save, after what is known so far. The vocabulary file
/// goes first: if the configuration cannot be written after it, every term is
/// still on disk.
pub open spec fn save_ask(
    problem: Option<Seq<char>>,
    vocabulary: Option<Seq<char>>,
    config_path: Seq<char>,
    vocabulary_path: Seq<char>,
    fresh: bool,
    manager: ServiceManager,
    p: SaveProgress,
) -> SaveAsk {
    if problem is Some {
        SaveAsk::Refuse(problem->0)
    } else if vocabulary is Some && p.vocabulary_written is None {
        SaveAsk::WriteVocabulary(vocabulary_path, vocabulary->0)
    } else if vocabulary is Some && p.vocabulary_written == Some(false) {
        SaveAsk::Fail("failed to write "@ + vocabulary_path)
    } else if p.config_written is None {
        SaveAsk::WriteConfig(config_path)
    } else if p.config_written == Some(false) {
        SaveAsk::Fail(
            config_failure(
                if vocabulary is Some {
                    Some(vocabulary_path)
                } else {
                    None
                },
            ),
        )
    } else if !p.mode_read {
        SaveAsk::ReadMode(config_path)
    } else if p.mode is Some && p.mode->0 % 512 != 384 && !p.restricted {
        SaveAsk::Restrict(config_path)
    } else {
        match p.restart {
            None => SaveAsk::Restart,
            Some(o) => SaveAsk::Done(advice_after(o, manager), fresh),
        }
    }
}

/// What the user is told of a restart.
pub open spec fn advice_after(outcome: RestartOutcome, manager: ServiceManager) -> RestartAdvice {
    match outcome {
        RestartOutcome::Restarted => RestartAdvice::Restarted,
        RestartOutcome::NoService => RestartAdvice::RestartByHand,
        RestartOutcome::Failed => match manager {
            ServiceManager::Systemd => RestartAdvice::ReadJournal,
            ServiceManager::OpenRc => RestartAdvice::ReadLog,
            ServiceManager::Unmanaged => RestartAdvice::Failed,
        },
    }
}

/// Why a configuration cannot be saved, if it cannot.
pub open spec fn validation_problem(v: Result<Vec<ConfigWarning>, WhisrsError>) -> Option<
    Seq<char>,
> {
    match v {
        Ok(_) => None,
        Err(e) => Some(e.text()),
    }
}

/// Validate, write, and restart: the next step, after what is known so far.
/// `vocabulary` is what the save's plan has for the vocabulary file.
pub fn save_and_restart(
    validation: &Result<Vec<ConfigWarning>, WhisrsError>,
    vocabulary: &Option<String>,
    config_path: &str,
    vocabulary_path: &str,
    fresh: bool,
    manager: ServiceManager,
    p: &SaveProgress,
) -> (r: SaveStep)
    ensures
        r.ask() == save_ask(
            validation_problem(*validation),
            opt_text(*vocabulary),
            config_path@,
            vocabulary_path@,
            fresh,
            manager,
            *p,
        ),
{
    match validation {
        Ok(_) => {},
        Err(e) => {
            return SaveStep::Refuse(e.message());
        },
    }
    if let Some(text) = vocabulary {
        match p.vocabulary_written {
            None => {
                return SaveStep::WriteVocabulary(vocabulary_path.to_owned(), text.clone());
            },
            Some(written) => {
                if !written {
                    let mut s = "failed to write ".to_owned();
                    s.push_str(vocabulary_path);
                    return SaveStep::Fail(s);
                }
            },
        }
    }
    match p.config_written {
        None => {
            return SaveStep::WriteConfig(config_path.to_owned());
        },
        Some(written) => {
            if !written {
                return SaveStep::Fail(write_failure(vocabulary.is_some(), vocabulary_path));
            }
        },
    }
    if !p.mode_read {
        return SaveStep::ReadMode(config_path.to_owned());
    }
    if let Some(mode) = p.mode {
        if mode % 512 != 384 && !p.restricted {
            return SaveStep::Restrict(config_path.to_owned());
        }
    }
    match p.restart {
        None => SaveStep::Restart,
        Some(o) => SaveStep::Done(restart_advice(o, manager), fresh),
    }
}

fn write_failure(vocabulary_written: bool, vocabulary_path: &str) -> (r: String)
    ensures
        r@ == config_failure(
            if vocabulary_written {
                Some(vocabulary_path@)
            } else {
                None
            },
        ),
{
    if vocabulary_written {
        let mut s =
            "failed to write config: your vocabulary edits were already saved to ".to_owned();
        s.push_str(vocabulary_path);
        s.push_str(", but config.toml was not updated");
        s
    } else {
        "failed to write config".to_owned()
    }
}

/// A save of an invalid configuration writes nothing, and one that moves the
/// vocabulary writes the configuration only after the vocabulary file. The
/// daemon is restarted only after the configuration was written.
pub proof fn save_goes_in_order(
    problem: Option<Seq<char>>,
    vocabulary: Option<Seq<char>>,
    config_path: Seq<char>,
    vocabulary_path: Seq<char>,
    fresh: bool,
    manager: ServiceManager,
    p: SaveProgress,
)
    ensures
        ({
            let ask = save_ask(
                problem,
                vocabulary,
                config_path,
                vocabulary_path,
                fresh,
                manager,
                p,
            );
            &&& problem is Some ==> ask is Refuse
            &&& ask is WriteConfig && vocabulary is Some ==> p.vocabulary_written == Some(true)
            &&& ask is WriteVocabulary ==> vocabulary is Some
            &&& ask is Restart ==> p.config_written == Some(true)
        }),
{
}

} // verus!
