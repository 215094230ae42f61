//! The editors of the configuration's sections: what each answer changes, and
//! what stays as it is.

use crate::config::backend_setup::{
    is_selection, BackendAnswers, BackendConfigSelection, BackendKind,
};
use crate::config::save_plan::{csv_entries, parse_csv_list};
use crate::config::secrets::{mask_api_key, masked_key};
use crate::config::setup::{overlay_theme, pick_overlay_theme};
use crate::config::types::{
    AudioConfig, Config, GeneralConfig, HooksConfig, HotkeyConfig, InputConfig, LlmCommandConfig,
    LlmConfig, OverlayConfig,
};
use crate::text::{
    opt_text, parse_number, range_of, same_text, text_list, texts, to_chars, to_text, trim,
    trimmed, trimmed_chars, unsigned_value,
};
use vstd::prelude::*;

verus! {

/// Take over a newly configured backend. Only the section that was just edited
/// is overwritten: the others are kept, so that switching back needs no key to
/// be entered again.
pub fn edit_backend(config: &mut Config, backend: String, sections: BackendConfigSelection)
    ensures
        *final(config) == with_backend(*old(config), backend, sections),
{
    config.general.backend = backend;
    if sections.deepgram.is_some() {
        config.deepgram = sections.deepgram;
    }
    if sections.groq.is_some() {
        config.groq = sections.groq;
    }
    if sections.openai.is_some() {
        config.openai = sections.openai;
    }
    if sections.local_whisper.is_some() {
        config.local_whisper = sections.local_whisper;
    }
    if sections.asr_sidecar.is_some() {
        config.asr_sidecar = sections.asr_sidecar;
    }
    if sections.openai_compatible_realtime.is_some() {
        config.openai_compatible_realtime = sections.openai_compatible_realtime;
    }
}

/// A new value where there is one, or else the old one.
pub open spec fn or_else<T>(new: Option<T>, old_value: Option<T>) -> Option<T> {
    if new is Some {
        new
    } else {
        old_value
    }
}

/// The configuration with a newly configured backend.
pub open spec fn with_backend(
    config: Config,
    backend: String,
    sections: BackendConfigSelection,
) -> Config {
    Config {
        general: GeneralConfig { backend, ..config.general },
        deepgram: or_else(sections.deepgram, config.deepgram),
        groq: or_else(sections.groq, config.groq),
        openai: or_else(sections.openai, config.openai),
        local_whisper: or_else(sections.local_whisper, config.local_whisper),
        asr_sidecar: or_else(sections.asr_sidecar, config.asr_sidecar),
        openai_compatible_realtime: or_else(
            sections.openai_compatible_realtime,
            config.openai_compatible_realtime,
        ),
        ..config
    }
}

/// Configuring a backend leaves the sections of all other backends as they
/// were, and everything that belongs to no backend.
pub proof fn other_backends_are_kept(
    config: Config,
    backend: String,
    sections: BackendConfigSelection,
    kind: BackendKind,
    data_dir: Option<Seq<char>>,
    answers: BackendAnswers,
)
    requires
        is_selection(sections, kind, Some(&config), data_dir, answers),
    ensures
        ({
            let after = with_backend(config, backend, sections);
            &&& kind is Deepgram || after.deepgram == config.deepgram
            &&& kind is Groq || after.groq == config.groq
            &&& kind is OpenAi || kind is OpenAiRealtime || after.openai == config.openai
            &&& kind is LocalWhisper || after.local_whisper == config.local_whisper
            &&& kind is Sidecar || after.asr_sidecar == config.asr_sidecar
            &&& kind is CompatibleRealtime || after.openai_compatible_realtime
                == config.openai_compatible_realtime
            &&& after.local_vosk == config.local_vosk
            &&& after.local_parakeet == config.local_parakeet
            &&& after.audio == config.audio && after.input == config.input
            &&& after.llm == config.llm && after.llm_commands == config.llm_commands
            &&& after.tts == config.tts && after.hotkeys == config.hotkeys
            &&& after.overlay == config.overlay && after.hooks == config.hooks
        }),
{
}

/// Set the language.
pub fn edit_language(config: &mut Config, language: String)
    ensures
        *final(config) == (Config {
            general: GeneralConfig { language, ..old(config).general },
            ..*old(config)
        }),
{
    config.general.language = language;
}

/// A volume moved into the range from 0 to 1, both as the bits of an IEEE 754
/// single. A value that is no number stays what it is.
pub open spec fn volume_in_range(bits: u32) -> u32 {
    let negative = bits >= 0x8000_0000;
    let magnitude = if negative {
        bits - 0x8000_0000
    } else {
        bits as int
    };
    if magnitude > 0x7f80_0000 {
        bits
    } else if negative && magnitude > 0 {
        0
    } else if !negative && magnitude > 0x3f80_0000 {
        0x3f80_0000
    } else {
        bits
    }
}

fn clamp_volume(bits: u32) -> (r: u32)
    ensures
        r == volume_in_range(bits),
{
    if bits >= 0x8000_0000 {
        let magnitude: u32 = bits - 0x8000_0000;
        if magnitude > 0 && magnitude <= 0x7f80_0000 {
            0
        } else {
            bits
        }
    } else if bits > 0x3f80_0000 && bits <= 0x7f80_0000 {
        0x3f80_0000
    } else {
        bits
    }
}

/// A typed number, or the old value where the text is no number that fits.
pub open spec fn number_or(input: Seq<char>, old_value: u64) -> u64 {
    match unsigned_value(input) {
        Some(n) if n <= u64::MAX => n as u64,
        _ => old_value,
    }
}

/// Whether a text is a number that fits.
pub open spec fn is_number(input: Seq<char>) -> bool {
    match unsigned_value(input) {
        Some(n) => n <= u64::MAX,
        None => false,
    }
}

/// Set the silence timeout. Returns whether the text was a number; where it is
/// none, nothing changes.
pub fn edit_silence_timeout(config: &mut Config, input: &str) -> (r: bool)
    ensures
        r == is_number(input@),
        *final(config) == (Config {
            general: GeneralConfig {
                silence_timeout_ms: number_or(input@, old(config).general.silence_timeout_ms),
                ..old(config).general
            },
            ..*old(config)
        }),
{
    match parse_number(input) {
        Some(n) => {
            config.general.silence_timeout_ms = n;
            true
        },
        None => false,
    }
}

/// Set notifications and audio feedback. The volume is asked for only with
/// feedback, and comes as the bits of a single, or as `None` where the text was
/// no number; it is kept between 0 and 1.
pub fn edit_feedback(config: &mut Config, notify: bool, audio_feedback: bool, volume: Option<u32>)
    ensures
        *final(config) == (Config {
            general: GeneralConfig {
                notify,
                audio_feedback,
                audio_feedback_volume: match volume {
                    Some(bits) if audio_feedback => volume_in_range(bits),
                    _ => old(config).general.audio_feedback_volume,
                },
                ..old(config).general
            },
            ..*old(config)
        }),
{
    config.general.notify = notify;
    config.general.audio_feedback = audio_feedback;
    if audio_feedback {
        if let Some(bits) = volume {
            config.general.audio_feedback_volume = clamp_volume(bits);
        }
    }
}

/// Set whether filler words are removed, and the list of them where the user
/// typed one.
pub fn edit_filler_words(config: &mut Config, remove: bool, list: &Option<String>)
    ensures
        final(config).general.remove_filler_words == remove,
        texts(final(config).general.filler_words@) == (match *list {
            Some(input) if remove => csv_entries(input@),
            _ => texts(old(config).general.filler_words@),
        }),
        *final(config) == (Config {
            general: GeneralConfig {
                remove_filler_words: remove,
                filler_words: final(config).general.filler_words,
                ..old(config).general
            },
            ..*old(config)
        }),
{
    config.general.remove_filler_words = remove;
    if remove {
        if let Some(input) = list {
            config.general.filler_words = parse_csv_list(input.as_str());
        }
    }
}

/// A typed text, or nothing where it is blank.
pub open spec fn nonblank(input: Seq<char>) -> Option<Seq<char>> {
    if trim(input).len() == 0 {
        None
    } else {
        Some(input)
    }
}

/// A typed text, or nothing where it is blank. A space unsets a value that was
/// offered as the default.
pub fn optional_answer(input: String) -> (r: Option<String>)
    ensures
        opt_text(r) == nonblank(input@),
        r is Some ==> r == Some(input),
{
    if trimmed_chars(&to_chars(input.as_str())).len() == 0 {
        None
    } else {
        Some(input)
    }
}

/// Set the vocabulary from a line with commas, and the prompt.
pub fn edit_vocabulary_and_prompt(config: &mut Config, vocabulary: &str, prompt: String)
    ensures
        texts(final(config).general.vocabulary@) == csv_entries(vocabulary@),
        opt_text(final(config).general.prompt) == nonblank(prompt@),
        *final(config) == (Config {
            general: GeneralConfig {
                vocabulary: final(config).general.vocabulary,
                prompt: final(config).general.prompt,
                ..old(config).general
            },
            ..*old(config)
        }),
{
    config.general.vocabulary = parse_csv_list(vocabulary);
    config.general.prompt = optional_answer(prompt);
}

/// Set the audio device.
pub fn edit_audio_device(config: &mut Config, device: String)
    ensures
        *final(config) == (Config { audio: AudioConfig { device }, ..*old(config) }),
{
    config.audio.device = device;
}

/// Set the delay between keystrokes. Returns whether the text was a number;
/// where it is none, nothing changes.
pub fn edit_key_delay(config: &mut Config, input: &str) -> (r: bool)
    ensures
        r == is_number(input@),
        *final(config) == (Config {
            input: InputConfig {
                key_delay_ms: number_or(input@, old(config).input.key_delay_ms),
                ..old(config).input
            },
            ..*old(config)
        }),
{
    match parse_number(input) {
        Some(n) => {
            config.input.key_delay_ms = n;
            true
        },
        None => false,
    }
}

/// Set whether the transcript is also kept in the clipboard.
pub fn edit_clipboard_fallback(config: &mut Config, on: bool)
    ensures
        *final(config) == (Config {
            input: InputConfig { clipboard_fallback: on, ..old(config).input },
            ..*old(config)
        }),
{
    config.input.clipboard_fallback = on;
}

/// Set whether the transcript is only copied to the clipboard.
pub fn edit_clipboard_only(config: &mut Config, on: bool)
    ensures
        *final(config) == (Config {
            input: InputConfig { clipboard_only: on, ..old(config).input },
            ..*old(config)
        }),
{
    config.input.clipboard_only = on;
}

/// Whether any hotkey in the section is bound.
pub fn any_hotkey_set(hotkeys: &HotkeyConfig) -> (r: bool)
    ensures
        r == (hotkeys.toggle is Some || hotkeys.cancel is Some || hotkeys.command is Some
            || hotkeys.speak is Some),
{
    hotkeys.toggle.is_some() || hotkeys.cancel.is_some() || hotkeys.command.is_some()
        || hotkeys.speak.is_some()
}

/// Set every hotkey. The whole section is dropped where none is bound.
pub fn edit_hotkeys(
    config: &mut Config,
    toggle: String,
    cancel: String,
    command: String,
    speak: String,
)
    ensures
        *final(config) == (Config { hotkeys: final(config).hotkeys, ..*old(config) }),
        match final(config).hotkeys {
            Some(h) => {
                &&& opt_text(h.toggle) == nonblank(toggle@)
                &&& opt_text(h.cancel) == nonblank(cancel@)
                &&& opt_text(h.command) == nonblank(command@)
                &&& opt_text(h.speak) == nonblank(speak@)
                &&& h.toggle is Some || h.cancel is Some || h.command is Some || h.speak is Some
            },
            None => nonblank(toggle@) is None && nonblank(cancel@) is None && nonblank(
                command@,
            ) is None && nonblank(speak@) is None,
        },
{
    let hotkeys = HotkeyConfig {
        toggle: optional_answer(toggle),
        cancel: optional_answer(cancel),
        command: optional_answer(command),
        speak: optional_answer(speak),
    };
    config.hotkeys = if any_hotkey_set(&hotkeys) {
        Some(hotkeys)
    } else {
        None
    };
}

/// Set the recording hooks. The whole section is dropped where nothing is set.
pub fn edit_media_hooks(config: &mut Config, media_auto_pause: bool, start: String, stop: String)
    ensures
        *final(config) == (Config { hooks: final(config).hooks, ..*old(config) }),
        match final(config).hooks {
            Some(h) => {
                &&& h.media_auto_pause == media_auto_pause
                &&& opt_text(h.on_record_start) == nonblank(start@)
                &&& opt_text(h.on_record_stop) == nonblank(stop@)
                &&& media_auto_pause || h.on_record_start is Some || h.on_record_stop is Some
            },
            None => !media_auto_pause && nonblank(start@) is None && nonblank(stop@) is None,
        },
{
    let hooks = HooksConfig {
        media_auto_pause,
        on_record_start: optional_answer(start),
        on_record_stop: optional_answer(stop),
    };
    config.hooks = if hooks.media_auto_pause || hooks.on_record_start.is_some()
        || hooks.on_record_stop.is_some() {
        Some(hooks)
    } else {
        None
    };
}

/// Set the tray icon and the overlay. With the overlay on, its theme is set and
/// the rest of its section kept, or filled with defaults where there was none.
pub fn edit_tray_overlay(config: &mut Config, tray: bool, overlay: bool, theme: usize)
    ensures
        *final(config) == (Config {
            general: GeneralConfig { tray, overlay, ..old(config).general },
            overlay: final(config).overlay,
            ..*old(config)
        }),
        if overlay {
            &&& final(config).overlay matches Some(o)
            &&& o.theme@ == overlay_theme(theme as int)
            &&& match old(config).overlay {
                Some(before) => o == OverlayConfig { theme: o.theme, ..before },
                None => o.width == 100 && o.height == 40 && o.colors is None,
            }
        } else {
            final(config).overlay == old(config).overlay
        },
{
    config.general.tray = tray;
    config.general.overlay = overlay;
    if overlay {
        let current = config.overlay.take();
        let mut section = match current {
            Some(o) => o,
            None => OverlayConfig::default(),
        };
        section.theme = pick_overlay_theme(theme);
        config.overlay = Some(section);
    }
}

/// What the menu says of the language model.
pub fn llm_label(config: &Config) -> (r: String)
    ensures
        r@ == (match config.llm {
            Some(l) => l.model@ + " ("@ + masked_key(l.api_key@) + ")"@,
            None => "not configured"@,
        }),
{
    match &config.llm {
        Some(l) => {
            let mut r = l.model.clone();
            r.push_str(" (");
            r.push_str(mask_api_key(l.api_key.as_str()).as_str());
            r.push_str(")");
            r
        },
        None => "not configured".to_owned(),
    }
}

/// Carry out a choice about the language model: the first entry takes over a
/// newly configured one, where one was configured, the second removes it, and
/// any other keeps what there is.
pub fn edit_llm(config: &mut Config, choice: usize, configured: Option<LlmConfig>)
    ensures
        *final(config) == (Config {
            llm: if choice == 0 {
                or_else(configured, old(config).llm)
            } else if choice == 1 {
                None
            } else {
                old(config).llm
            },
            ..*old(config)
        }),
{
    if choice == 0 {
        if configured.is_some() {
            config.llm = configured;
        }
    } else if choice == 1 {
        config.llm = None;
    }
}

/// What can be done with the custom commands.
#[derive(Debug, Clone, Copy, PartialEq, Eq, Structural)]
pub enum CommandAction {
    Add,
    Edit,
    Remove,
    Done,
}

/// The entries of the menu of custom commands: without any command there is
/// nothing to edit or remove.
pub open spec fn command_menu_labels(empty: bool) -> Seq<Seq<char>> {
    if empty {
        seq!["Add new"@, "Done"@]
    } else {
        seq!["Add new"@, "Edit an entry"@, "Remove an entry"@, "Done"@]
    }
}

/// The entries of the menu of custom commands. The last one is the default.
pub fn command_menu(empty: bool) -> (r: Vec<String>)
    ensures
        texts(r@) == command_menu_labels(empty),
{
    let r = if empty {
        text_list(&["Add new", "Done"])
    } else {
        text_list(&["Add new", "Edit an entry", "Remove an entry", "Done"])
    };
    assert(texts(r@) =~= command_menu_labels(empty));
    r
}

/// What an entry of the menu of custom commands does.
pub fn command_action(selection: usize, empty: bool) -> (r: CommandAction)
    requires
        selection < command_menu_labels(empty).len(),
    ensures
        r == CommandAction::Add <==> command_menu_labels(empty)[selection as int] == "Add new"@,
        r == CommandAction::Edit <==> command_menu_labels(empty)[selection as int]
            == "Edit an entry"@,
        r == CommandAction::Remove <==> command_menu_labels(empty)[selection as int]
            == "Remove an entry"@,
        r == CommandAction::Done <==> command_menu_labels(empty)[selection as int] == "Done"@,
{
    proof {
        reveal_strlit("Add new");
        reveal_strlit("Edit an entry");
        reveal_strlit("Remove an entry");
        reveal_strlit("Done");
        assert("Add new"@.len() == 7);
        assert("Edit an entry"@.len() == 13);
        assert("Remove an entry"@.len() == 15);
        assert("Done"@.len() == 4);
    }
    if selection == 0 {
        CommandAction::Add
    } else if empty || selection == 3 {
        CommandAction::Done
    } else if selection == 1 {
        CommandAction::Edit
    } else {
        CommandAction::Remove
    }
}

/// The names of custom commands, in order.
pub open spec fn command_names(v: Seq<LlmCommandConfig>) -> Seq<Seq<char>> {
    Seq::new(v.len(), |i: int| v[i].name@)
}

/// Whether a custom command has this name.
pub fn has_llm_command(config: &Config, name: &str) -> (r: bool)
    ensures
        r == command_names(config.llm_commands@).contains(name@),
{
    let mut i: usize = 0;
    while i < config.llm_commands.len()
        invariant
            i <= config.llm_commands@.len(),
            forall|j: int| 0 <= j < i ==> config.llm_commands@[j].name@ != name@,
        decreases config.llm_commands@.len() - i,
    {
        if same_text(config.llm_commands[i].name.as_str(), name) {
            assert(command_names(config.llm_commands@)[i as int] == name@);
            return true;
        }
        i += 1;
    }
    false
}

/// A typed hotkey without the white space round it, or nothing where it is
/// blank.
pub open spec fn trimmed_hotkey(raw: Seq<char>) -> Option<Seq<char>> {
    if trim(raw).len() == 0 {
        None
    } else {
        Some(trim(raw))
    }
}

fn set_hotkey_of(raw: &str) -> (r: Option<String>)
    ensures
        opt_text(r) == trimmed_hotkey(raw@),
{
    let t = trimmed(raw);
    if to_chars(t.as_str()).len() == 0 {
        None
    } else {
        Some(t)
    }
}

/// Add a custom command. Where one of that name exists nothing changes, and
/// the result is false.
pub fn add_llm_command(
    config: &mut Config,
    name: String,
    hotkey: String,
    set_hotkey: &str,
    instruction: String,
) -> (r: bool)
    ensures
        r == !command_names(old(config).llm_commands@).contains(name@),
        !r ==> *final(config) == *old(config),
        *final(config) == (Config { llm_commands: final(config).llm_commands, ..*old(config) }),
        r ==> {
            let added = final(config).llm_commands@.last();
            &&& final(config).llm_commands@ == old(config).llm_commands@.push(added)
            &&& added == LlmCommandConfig {
                name,
                hotkey,
                set_hotkey: added.set_hotkey,
                instruction,
            }
            &&& opt_text(added.set_hotkey) == trimmed_hotkey(set_hotkey@)
        },
{
    if has_llm_command(config, name.as_str()) {
        return false;
    }
    config.llm_commands.push(
        LlmCommandConfig { name, hotkey, set_hotkey: set_hotkey_of(set_hotkey), instruction },
    );
    true
}

/// Replace the custom command at an index.
pub fn edit_one_llm_command(
    config: &mut Config,
    idx: usize,
    name: String,
    hotkey: String,
    set_hotkey: &str,
    instruction: String,
)
    requires
        idx < old(config).llm_commands@.len(),
    ensures
        *final(config) == (Config { llm_commands: final(config).llm_commands, ..*old(config) }),
        ({
            let edited = final(config).llm_commands@[idx as int];
            &&& final(config).llm_commands@ == old(config).llm_commands@.update(idx as int, edited)
            &&& edited == LlmCommandConfig {
                name,
                hotkey,
                set_hotkey: edited.set_hotkey,
                instruction,
            }
            &&& opt_text(edited.set_hotkey) == trimmed_hotkey(set_hotkey@)
        }),
{
    let entry = LlmCommandConfig {
        name,
        hotkey,
        set_hotkey: set_hotkey_of(set_hotkey),
        instruction,
    };
    config.llm_commands.set(idx, entry);
}

/// Remove the custom command at an index, and return it.
pub fn remove_llm_command(config: &mut Config, idx: usize) -> (r: LlmCommandConfig)
    requires
        idx < old(config).llm_commands@.len(),
    ensures
        r == old(config).llm_commands@[idx as int],
        final(config).llm_commands@ == old(config).llm_commands@.remove(idx as int),
        *final(config) == (Config { llm_commands: final(config).llm_commands, ..*old(config) }),
{
    config.llm_commands.remove(idx)
}

/// A custom command as it is offered.
pub open spec fn command_label(c: LlmCommandConfig) -> Seq<char> {
    c.name@ + " ("@ + c.hotkey@ + ")"@
}

/// The custom commands as they are offered, and the way to cancel.
pub fn command_choices(config: &Config) -> (r: Vec<String>)
    ensures
        texts(r@) == Seq::new(
            config.llm_commands@.len(),
            |i: int| command_label(config.llm_commands@[i]),
        ).push("Cancel"@),
{
    let mut r: Vec<String> = Vec::new();
    let mut i: usize = 0;
    while i < config.llm_commands.len()
        invariant
            i <= config.llm_commands@.len(),
            texts(r@) == Seq::new(i as nat, |j: int| command_label(config.llm_commands@[j])),
        decreases config.llm_commands@.len() - i,
    {
        let ghost before = texts(r@);
        let mut label = config.llm_commands[i].name.clone();
        label.push_str(" (");
        label.push_str(config.llm_commands[i].hotkey.as_str());
        label.push_str(")");
        r.push(label);
        assert(texts(r@) =~= before.push(command_label(config.llm_commands@[i as int])));
        i += 1;
        assert(texts(r@) =~= Seq::new(i as nat, |j: int| command_label(config.llm_commands@[j])));
    }
    let ghost before = texts(r@);
    r.push("Cancel".to_owned());
    assert(texts(r@) =~= before.push("Cancel"@));
    r
}

/// The custom command that was picked, or `None` where the user cancelled.
pub fn select_llm_command(config: &Config, selection: usize) -> (r: Option<usize>)
    requires
        selection <= config.llm_commands@.len(),
    ensures
        match r {
            Some(i) => i == selection && i < config.llm_commands@.len(),
            None => selection == config.llm_commands@.len(),
        },
{
    if selection == config.llm_commands.len() {
        None
    } else {
        Some(selection)
    }
}

/// A text as a line of a menu shows it: at most 50 characters, and an ellipsis
/// where there are more.
pub open spec fn menu_text(s: Seq<char>) -> Seq<char> {
    if s.len() <= 50 {
        s
    } else {
        s.take(50).push('…')
    }
}

/// Truncate an instruction for the line of a menu.
pub fn truncate_for_menu(s: &str) -> (r: String)
    ensures
        r@ == menu_text(s@),
{
    let v = to_chars(s);
    if v.len() <= 50 {
        s.to_owned()
    } else {
        let mut r = to_text(&range_of(&v, 0, 50));
        assert(r@ =~= s@.take(50));
        r.push('…');
        r
    }
}

} // verus!
