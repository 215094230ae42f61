//! What validation owes a configuration: which ones it refuses, and that
//! everything else that is wrong with one is said, and nothing more.

use crate::config::secrets::names_tell_backends_apart;
use crate::config::types::{Config, HotkeyConfig, LlmCommandConfig};
use crate::config::validate::{
    all_bindings, all_specs, backend_problem, blank, bound, collide, collision_text,
    collision_warnings, combo, command_bindings, command_specs, command_warnings, entry_bindings,
    entry_warnings, first_collision, general_warnings, hotkey_warnings, instruction_warnings,
    is_streaming, model_warnings, name_warnings, own_bindings, parakeet_model, present, reading_of,
    same_combo, set_hotkey_warnings, validation, vosk_model, whisper_model, Hotkey, HotkeyReading,
    Surroundings, COMMAND_NAME_EMPTY, DEEPGRAM_KEY_MISSING, GROQ_KEY_MISSING, NO_LLM_SECTION,
    NO_SILENCE_TIMEOUT, ONE_SHOT_HEAD, ONE_SHOT_TAIL, OPENAI_KEY_MISSING, PARAKEET_MODEL_MISSING,
    VOSK_MODEL_MISSING, WHISPER_MODEL_HINT, WHISPER_MODEL_MISSING,
};
use crate::text::{has_text, is_white, opt_text, trim};
use crate::text_laws::{
    all_white, starting_with_is_being_followed, trimming_gives_what_stands_between,
    trimming_takes_only_white_space,
};
use vstd::prelude::*;

verus! {

/// A text is blank exactly where every character of it is white space.
pub proof fn blank_is_white_space(s: Seq<char>)
    ensures
        blank(s) <==> all_white(s),
{
    trimming_takes_only_white_space(s);
    if blank(s) {
        let (a, b) = choose|a: int, b: int|
            0 <= a <= b <= s.len() && trim(s) == #[trigger] s.subrange(a, b) && (forall|i: int|
                0 <= i < a ==> is_white(#[trigger] s[i])) && (forall|i: int|
                b <= i < s.len() ==> is_white(#[trigger] s[i]));
        assert(a == b);
        assert forall|i: int| 0 <= i < s.len() implies is_white(#[trigger] s[i]) by {}
    }
    if all_white(s) {
        let none = Seq::<char>::empty();
        trimming_gives_what_stands_between(s, none, none);
        assert(s + none + none =~= s);
    }
}

/// A cloud backend is refused exactly where its key is missing: none in its
/// own section of the file, and none in its own variable.
pub proof fn keys_are_asked_for(
    c: Config,
    scheme: Result<Seq<char>, Seq<char>>,
    w: Surroundings,
)
    ensures
        c.general.backend@ == "groq"@ ==> (validation(c, scheme, w) is Err <==> !w.groq_env_key && (
        c.groq matches Some(g) ==> g.api_key@.len() == 0)),
        c.general.backend@ == "groq"@ && validation(c, scheme, w) is Err ==> validation(
            c,
            scheme,
            w,
        )->Err_0 == GROQ_KEY_MISSING@,
        c.general.backend@ == "deepgram"@ || c.general.backend@ == "deepgram-streaming"@ ==> (
        validation(c, scheme, w) is Err <==> !w.deepgram_env_key && (c.deepgram matches Some(d)
            ==> d.api_key@.len() == 0)),
        (c.general.backend@ == "deepgram"@ || c.general.backend@ == "deepgram-streaming"@)
            && validation(c, scheme, w) is Err ==> validation(c, scheme, w)->Err_0
            == DEEPGRAM_KEY_MISSING@,
        c.general.backend@ == "openai"@ || c.general.backend@ == "openai-realtime"@ ==> (validation(
            c,
            scheme,
            w,
        ) is Err <==> !w.openai_env_key && (c.openai matches Some(o) ==> o.api_key@.len() == 0)),
        (c.general.backend@ == "openai"@ || c.general.backend@ == "openai-realtime"@) && validation(
            c,
            scheme,
            w,
        ) is Err ==> validation(c, scheme, w)->Err_0 == OPENAI_KEY_MISSING@,
{
    names_tell_backends_apart();
}

/// A local backend is never refused: a model that is missing gives a warning,
/// and one that is there gives none.
pub proof fn missing_models_are_only_warned_of(
    c: Config,
    scheme: Result<Seq<char>, Seq<char>>,
    w: Surroundings,
)
    requires
        c.general.backend@ == "local-whisper"@ || c.general.backend@ == "local"@
            || c.general.backend@ == "local-vosk"@ || c.general.backend@ == "local-parakeet"@,
    ensures
        validation(c, scheme, w) is Ok,
        c.general.backend@ == "local-whisper"@ || c.general.backend@ == "local"@ ==> model_warnings(
            c,
            w,
        ) == (if w.model_exists {
            seq![]
        } else {
            seq![
                WHISPER_MODEL_MISSING@ + whisper_model(c, opt_text(w.data_dir))
                    + WHISPER_MODEL_HINT@,
            ]
        }),
        c.general.backend@ == "local-vosk"@ ==> model_warnings(c, w) == (if w.model_exists && (
        c.local_vosk matches Some(l) && l.model_path@.len() > 0) {
            seq![]
        } else {
            seq![VOSK_MODEL_MISSING@]
        }),
        c.general.backend@ == "local-parakeet"@ ==> model_warnings(c, w) == (if w.model_exists && (
        c.local_parakeet matches Some(l) && l.model_path@.len() > 0) {
            seq![]
        } else {
            seq![PARAKEET_MODEL_MISSING@]
        }),
{
    names_tell_backends_apart();
    reveal_strlit("");
}

/// A backend behind a URL is refused where the URL is blank, and the sidecar
/// only there.
pub proof fn urls_are_asked_for(
    c: Config,
    scheme: Result<Seq<char>, Seq<char>>,
    w: Surroundings,
)
    ensures
        c.general.backend@ == "asr-sidecar"@ || c.general.backend@ == "asr"@ || c.general.backend@
            == "vibevoice"@ ==> (validation(c, scheme, w) is Err <==> (c.asr_sidecar matches Some(s)
            ==> all_white(s.url@))),
        c.general.backend@ == "openai-compatible-realtime"@ && (
        c.openai_compatible_realtime matches Some(r) ==> all_white(r.url@)) ==> validation(
            c,
            scheme,
            w,
        ) is Err,
        c.general.backend@ == "openai-compatible-realtime"@ ==> (validation(c, scheme, w) is Ok
            <==> (c.openai_compatible_realtime matches Some(r) && !all_white(r.url@) && (scheme
            == Ok::<Seq<char>, Seq<char>>("ws"@) || scheme == Ok::<Seq<char>, Seq<char>>("wss"@))
            && !all_white(r.model@) && w.profile_error is None && trim(r.profile@) == "lemonade"@
            && w.turn_detection_error is None)),
{
    names_tell_backends_apart();
    if let Some(s) = c.asr_sidecar {
        blank_is_white_space(s.url@);
    }
    if let Some(r) = c.openai_compatible_realtime {
        blank_is_white_space(r.url@);
        blank_is_white_space(r.model@);
    }
}

/// A backend of any other name is refused, and the refusal names it.
pub proof fn unknown_backends_are_refused(
    c: Config,
    scheme: Result<Seq<char>, Seq<char>>,
    w: Surroundings,
)
    requires
        !seq![
            "deepgram"@,
            "deepgram-streaming"@,
            "groq"@,
            "openai"@,
            "openai-realtime"@,
            "openai-compatible-realtime"@,
            "local-whisper"@,
            "local"@,
            "local-vosk"@,
            "local-parakeet"@,
            "asr-sidecar"@,
            "asr"@,
            "vibevoice"@,
        ].contains(c.general.backend@),
    ensures
        validation(c, scheme, w) is Err,
        exists|rest: Seq<char>|
            validation(c, scheme, w)->Err_0 == #[trigger] ("Unknown backend '"@
                + c.general.backend@ + rest),
{
    let names = seq![
        "deepgram"@,
        "deepgram-streaming"@,
        "groq"@,
        "openai"@,
        "openai-realtime"@,
        "openai-compatible-realtime"@,
        "local-whisper"@,
        "local"@,
        "local-vosk"@,
        "local-parakeet"@,
        "asr-sidecar"@,
        "asr"@,
        "vibevoice"@,
    ];
    assert(names[0] == "deepgram"@ && names[1] == "deepgram-streaming"@ && names[2] == "groq"@);
    assert(names[3] == "openai"@ && names[4] == "openai-realtime"@);
    assert(names[5] == "openai-compatible-realtime"@ && names[6] == "local-whisper"@);
    assert(names[7] == "local"@ && names[8] == "local-vosk"@ && names[9] == "local-parakeet"@);
    assert(names[10] == "asr-sidecar"@ && names[11] == "asr"@ && names[12] == "vibevoice"@);
    assert(backend_problem(c, scheme, w) == Some(
        "Unknown backend '"@ + c.general.backend@
            + crate::config::validate::UNKNOWN_BACKEND_HINT@,
    ));
}

/// All warnings come out, in the order of what they are about: the model, the
/// general settings, the commands, and the combos bound twice.
pub proof fn every_warning_comes_out(
    c: Config,
    scheme: Result<Seq<char>, Seq<char>>,
    w: Surroundings,
    text: Seq<char>,
)
    requires
        validation(c, scheme, w) is Ok,
    ensures
        validation(c, scheme, w)->Ok_0.contains(text) <==> model_warnings(c, w).contains(text)
            || general_warnings(c).contains(text) || command_warnings(c, w).contains(text)
            || collision_warnings(all_bindings(c), w.hotkeys@, all_bindings(c).len()).contains(text),
{
    let m = model_warnings(c, w);
    let g = general_warnings(c);
    let o = command_warnings(c, w);
    let d = collision_warnings(all_bindings(c), w.hotkeys@, all_bindings(c).len());
    in_either(m, g, text);
    in_either(m + g, o, text);
    in_either(m + g + o, d, text);
}

proof fn in_either(a: Seq<Seq<char>>, b: Seq<Seq<char>>, x: Seq<char>)
    ensures
        (a + b).contains(x) <==> a.contains(x) || b.contains(x),
{
    let s = a + b;
    if s.contains(x) {
        let i = choose|i: int| 0 <= i < s.len() && s[i] == x;
        if i < a.len() {
            assert(a[i] == x);
        } else {
            assert(b[i - a.len()] == x);
        }
    }
    if a.contains(x) {
        let i = choose|i: int| 0 <= i < a.len() && a[i] == x;
        assert(s[i] == x);
    }
    if b.contains(x) {
        let i = choose|i: int| 0 <= i < b.len() && b[i] == x;
        assert(s[a.len() + i] == x);
    }
}

/// A silence timeout of zero is warned of, and so is pasting with a backend
/// that types as it goes; nothing else of the general settings is.
pub proof fn settings_without_effect_are_warned_of(c: Config)
    ensures
        c.general.silence_timeout_ms == 0 ==> general_warnings(c).len() > 0 && general_warnings(c)[0]
            == NO_SILENCE_TIMEOUT@,
        general_warnings(c).len() == (if c.general.silence_timeout_ms == 0 {
            1int
        } else {
            0int
        }) + (if c.input.paste && (c.general.backend@ == "deepgram-streaming"@ || c.general.backend@
            == "openai-realtime"@ || c.general.backend@ == "openai-compatible-realtime"@
            || c.general.backend@ == "local-whisper"@ || c.general.backend@ == "local"@) {
            1int
        } else {
            0int
        }),
{
}

/// Whether something is wrong with the command at place `i`: its name is blank
/// or taken, its hotkey is blank or not understood, the hotkey that reprograms
/// it is not understood or the same, or its instruction is blank.
pub open spec fn command_is_wrong(
    commands: Seq<LlmCommandConfig>,
    readings: Seq<HotkeyReading>,
    i: int,
) -> bool {
    ||| all_white(commands[i].name@)
    ||| exists|j: int| 0 <= j < i && (#[trigger] commands[j]).name@ == commands[i].name@
    ||| all_white(commands[i].hotkey@)
    ||| reading_of(readings, commands[i].hotkey@) matches Some(Err(_))
    ||| commands[i].set_hotkey matches Some(s) && (s@ == commands[i].hotkey@ || reading_of(
        readings,
        s@,
    ) matches Some(Err(_)))
    ||| all_white(commands[i].instruction@)
}

/// Commands give warnings exactly where something is wrong with one of them.
pub proof fn commands_are_warned_of_where_wrong(
    commands: Seq<LlmCommandConfig>,
    readings: Seq<HotkeyReading>,
    n: nat,
)
    requires
        n <= commands.len(),
    ensures
        entry_warnings(commands, readings, n).len() > 0 <==> exists|i: int|
            0 <= i < n && #[trigger] command_is_wrong(commands, readings, i),
    decreases n,
{
    if n > 0 {
        commands_are_warned_of_where_wrong(commands, readings, (n - 1) as nat);
        let e = commands[n - 1];
        blank_is_white_space(e.name@);
        blank_is_white_space(e.hotkey@);
        blank_is_white_space(e.instruction@);
        let mine = name_warnings(commands, n - 1) + hotkey_warnings(e, readings)
            + set_hotkey_warnings(e, readings) + instruction_warnings(e);
        assert(mine.len() > 0 <==> command_is_wrong(commands, readings, n - 1));
        assert(entry_warnings(commands, readings, n).len() == entry_warnings(
            commands,
            readings,
            (n - 1) as nat,
        ).len() + mine.len());
    }
}

/// Each fault of a command is named, together with the command.
pub proof fn each_fault_is_named(
    commands: Seq<LlmCommandConfig>,
    readings: Seq<HotkeyReading>,
    n: nat,
    i: int,
)
    requires
        0 <= i < n <= commands.len(),
    ensures
        all_white(commands[i].name@) ==> entry_warnings(commands, readings, n).contains(
            COMMAND_NAME_EMPTY@,
        ),
        !all_white(commands[i].name@) && (exists|j: int|
            0 <= j < i && (#[trigger] commands[j]).name@ == commands[i].name@) ==> entry_warnings(
            commands,
            readings,
            n,
        ).contains("llm_commands has a duplicate name: '"@ + commands[i].name@ + "'"@),
        all_white(commands[i].hotkey@) ==> entry_warnings(commands, readings, n).contains(
            "llm_commands '"@ + commands[i].name@ + "' has an empty hotkey"@,
        ),
        !all_white(commands[i].hotkey@) && (reading_of(readings, commands[i].hotkey@) matches Some(
            Err(_),
        )) ==> entry_warnings(commands, readings, n).contains(
            "llm_commands '"@ + commands[i].name@ + "' has an invalid hotkey '"@
                + commands[i].hotkey@ + "': "@ + reading_of(
                readings,
                commands[i].hotkey@,
            )->0->Err_0@,
        ),
        commands[i].set_hotkey is Some && (reading_of(
            readings,
            commands[i].set_hotkey->0@,
        ) matches Some(Err(_))) ==> entry_warnings(commands, readings, n).contains(
            "llm_commands '"@ + commands[i].name@ + "' has an invalid set_hotkey '"@
                + commands[i].set_hotkey->0@ + "': "@ + reading_of(
                readings,
                commands[i].set_hotkey->0@,
            )->0->Err_0@,
        ),
        all_white(commands[i].instruction@) ==> entry_warnings(commands, readings, n).contains(
            "llm_commands '"@ + commands[i].name@ + "' has an empty instruction"@,
        ),
    decreases n,
{
    let before = entry_warnings(commands, readings, (n - 1) as nat);
    let now = entry_warnings(commands, readings, n);
    let e = commands[n - 1];
    let a = name_warnings(commands, n - 1);
    let b = hotkey_warnings(e, readings);
    let d = set_hotkey_warnings(e, readings);
    let f = instruction_warnings(e);
    assert(now == before + a + b + d + f);
    assert forall|x: Seq<char>| #[trigger] now.contains(x) <==> before.contains(x) || a.contains(x)
        || b.contains(x) || d.contains(x) || f.contains(x) by {
        in_either(before, a, x);
        in_either(before + a, b, x);
        in_either(before + a + b, d, x);
        in_either(before + a + b + d, f, x);
    }
    if i < n - 1 {
        each_fault_is_named(commands, readings, (n - 1) as nat, i);
    } else {
        blank_is_white_space(e.name@);
        blank_is_white_space(e.hotkey@);
        blank_is_white_space(e.instruction@);
        if a.len() > 0 {
            assert(a.contains(a[0]));
        }
        if b.len() > 0 {
            assert(b.contains(b[0]));
        }
        if d.len() > 0 {
            assert(d.contains(d[0]));
        }
        if f.len() > 0 {
            assert(f.contains(f[0]));
        }
    }
}

/// Commands without a section for the model that runs them are warned of, once
/// for all of them; without commands nothing is said of them.
pub proof fn commands_need_a_model(c: Config, w: Surroundings)
    ensures
        c.llm_commands@.len() == 0 ==> command_warnings(c, w).len() == 0,
        c.llm_commands@.len() > 0 && c.llm is None ==> command_warnings(c, w).contains(
            NO_LLM_SECTION@,
        ),
{
    if c.llm_commands@.len() > 0 && c.llm is None {
        assert(command_warnings(c, w)[0] == NO_LLM_SECTION@);
    }
}

/// A combo is told by its keys alone: neither the order nor a repetition of
/// its modifiers matters, while another trigger or one modifier more does.
pub proof fn combos_are_told_by_their_keys(a: Hotkey, b: Hotkey, m: u16)
    ensures
        same_combo(a, a),
        same_combo(a, b) == same_combo(b, a),
        a.trigger != b.trigger ==> !same_combo(a, b),
        a.modifiers@.contains(m) && !b.modifiers@.contains(m) ==> !same_combo(a, b),
        a.trigger == b.trigger && a.modifiers@.reverse() == b.modifiers@ ==> same_combo(a, b),
{
    if a.modifiers@.reverse() == b.modifiers@ {
        let x = a.modifiers@;
        let y = b.modifiers@;
        assert forall|k: u16| x.contains(k) <==> y.contains(k) by {
            if x.contains(k) {
                let i = choose|i: int| 0 <= i < x.len() && x[i] == k;
                assert(y[x.len() - 1 - i] == k);
            }
            if y.contains(k) {
                let i = choose|i: int| 0 <= i < y.len() && y[i] == k;
                assert(x[x.len() - 1 - i] == k);
            }
        }
    }
}

/// A blank spec fires on nothing, and so does one that is not understood; any
/// other fires on the combo that it is read as.
pub proof fn specs_fire_on_what_they_are_read_as(
    b: (Seq<char>, Seq<char>),
    readings: Seq<HotkeyReading>,
)
    ensures
        all_white(b.1) ==> combo(b, readings) is None,
        !all_white(b.1) ==> (match reading_of(readings, b.1) {
            Some(Ok(h)) => combo(b, readings) == Some(h),
            _ => combo(b, readings) is None,
        }),
{
    blank_is_white_space(b.1);
}

/// The reading of a spec is the first that there is for it.
pub proof fn readings_are_found(readings: Seq<HotkeyReading>, spec: Seq<char>, i: int)
    requires
        0 <= i < readings.len(),
        readings[i].spec@ == spec,
        forall|k: int| 0 <= k < i ==> (#[trigger] readings[k]).spec@ != spec,
    ensures
        reading_of(readings, spec) == Some(readings[i].reading),
    decreases readings.len(),
{
    if i > 0 {
        let rest = readings.drop_first();
        assert(readings[0].spec@ != spec);
        assert(rest[i - 1] == readings[i]);
        assert forall|k: int| 0 <= k < i - 1 implies (#[trigger] rest[k]).spec@ != spec by {
            assert(rest[k] == readings[k + 1]);
        }
        readings_are_found(rest, spec, i - 1);
    }
}

proof fn pairs_in_either(
    a: Seq<(Seq<char>, Seq<char>)>,
    b: Seq<(Seq<char>, Seq<char>)>,
    x: (Seq<char>, Seq<char>),
)
    requires
        a.contains(x) || b.contains(x),
    ensures
        (a + b).contains(x),
{
    let s = a + b;
    if a.contains(x) {
        let i = choose|i: int| 0 <= i < a.len() && a[i] == x;
        assert(s[i] == x);
    } else {
        let i = choose|i: int| 0 <= i < b.len() && b[i] == x;
        assert(s[a.len() + i] == x);
    }
}

/// The four hotkeys of the program itself are all looked at, each under its
/// own name.
pub proof fn own_hotkeys_are_looked_at(c: Config, h: HotkeyConfig)
    requires
        c.hotkeys == Some(h),
    ensures
        h.toggle is Some ==> all_bindings(c).contains(("[hotkeys] toggle"@, h.toggle->0@)),
        h.cancel is Some ==> all_bindings(c).contains(("[hotkeys] cancel"@, h.cancel->0@)),
        h.command is Some ==> all_bindings(c).contains(("[hotkeys] command"@, h.command->0@)),
        h.speak is Some ==> all_bindings(c).contains(("[hotkeys] speak"@, h.speak->0@)),
{
    let own = own_bindings(h);
    let rest = command_bindings(c.llm_commands@, c.llm_commands@.len());
    let a = bound("[hotkeys] toggle"@, h.toggle);
    let b = bound("[hotkeys] cancel"@, h.cancel);
    let d = bound("[hotkeys] command"@, h.command);
    let e = bound("[hotkeys] speak"@, h.speak);
    assert(own == a + b + d + e);
    if h.toggle is Some {
        assert(a[0] == ("[hotkeys] toggle"@, h.toggle->0@));
        assert(own[0] == a[0]);
        pairs_in_either(own, rest, a[0]);
    }
    if h.cancel is Some {
        assert(b[0] == ("[hotkeys] cancel"@, h.cancel->0@));
        assert(own[a.len() as int] == b[0]);
        pairs_in_either(own, rest, b[0]);
    }
    if h.command is Some {
        assert(d[0] == ("[hotkeys] command"@, h.command->0@));
        assert(own[(a.len() + b.len()) as int] == d[0]);
        pairs_in_either(own, rest, d[0]);
    }
    if h.speak is Some {
        assert(e[0] == ("[hotkeys] speak"@, h.speak->0@));
        assert(own[(a.len() + b.len() + d.len()) as int] == e[0]);
        pairs_in_either(own, rest, e[0]);
    }
}

/// The hotkeys of every command are looked at too, but for one that reprograms
/// a command and repeats its hotkey letter for letter.
pub proof fn command_hotkeys_are_looked_at(c: Config, n: nat, i: int)
    requires
        0 <= i < n <= c.llm_commands@.len(),
    ensures
        command_bindings(c.llm_commands@, n).contains(
            (
                "llm_commands '"@ + c.llm_commands@[i].name@ + "' hotkey"@,
                c.llm_commands@[i].hotkey@,
            ),
        ),
        c.llm_commands@[i].set_hotkey matches Some(s) && s@ != c.llm_commands@[i].hotkey@
            ==> command_bindings(c.llm_commands@, n).contains(
            (
                "llm_commands '"@ + c.llm_commands@[i].name@ + "' set_hotkey"@,
                c.llm_commands@[i].set_hotkey->0@,
            ),
        ),
        n == c.llm_commands@.len() ==> all_bindings(c).contains(
            (
                "llm_commands '"@ + c.llm_commands@[i].name@ + "' hotkey"@,
                c.llm_commands@[i].hotkey@,
            ),
        ),
    decreases n,
{
    let commands = c.llm_commands@;
    let before = command_bindings(commands, (n - 1) as nat);
    let mine = entry_bindings(commands[n - 1]);
    let e = commands[i];
    let x = ("llm_commands '"@ + e.name@ + "' hotkey"@, e.hotkey@);
    let y = ("llm_commands '"@ + e.name@ + "' set_hotkey"@, e.set_hotkey->0@);
    if i < n - 1 {
        command_hotkeys_are_looked_at(c, (n - 1) as nat, i);
    } else {
        assert(mine[0] == x);
        if e.set_hotkey is Some && e.set_hotkey->0@ != e.hotkey@ {
            assert(mine[1] == y);
        }
    }
    pairs_in_either(before, mine, x);
    if e.set_hotkey is Some && e.set_hotkey->0@ != e.hotkey@ {
        pairs_in_either(before, mine, y);
    }
    if n == commands.len() {
        let own = match c.hotkeys {
            Some(h) => own_bindings(h),
            None => seq![],
        };
        pairs_in_either(own, command_bindings(commands, n), x);
    }
}

/// Every spec that a binding has is among those that are read beforehand.
pub proof fn every_spec_is_read(c: Config, i: int)
    requires
        0 <= i < all_bindings(c).len(),
    ensures
        all_specs(c).contains(all_bindings(c)[i].1),
{
    let commands = c.llm_commands@;
    let x = all_bindings(c)[i].1;
    let specs = command_specs(commands, commands.len());
    match c.hotkeys {
        Some(h) => {
            let own = own_bindings(h);
            let read = present(h.toggle) + present(h.cancel) + present(h.command) + present(
                h.speak,
            );
            if i < own.len() {
                assert(own.len() == read.len());
                assert(own[i].1 == read[i]);
                assert(read.contains(x));
            } else {
                command_specs_are_read(commands, commands.len(), i - own.len());
            }
            in_either(read, specs, x);
        },
        None => {
            command_specs_are_read(commands, commands.len(), i);
            in_either(seq![], specs, x);
        },
    }
}

proof fn command_specs_are_read(commands: Seq<LlmCommandConfig>, n: nat, i: int)
    requires
        n <= commands.len(),
        0 <= i < command_bindings(commands, n).len(),
    ensures
        command_specs(commands, n).contains(command_bindings(commands, n)[i].1),
    decreases n,
{
    let before = command_bindings(commands, (n - 1) as nat);
    let specs = command_specs(commands, (n - 1) as nat);
    let e = commands[n - 1];
    let x = command_bindings(commands, n)[i].1;
    if i < before.len() {
        command_specs_are_read(commands, (n - 1) as nat, i);
        assert(before[i] == command_bindings(commands, n)[i]);
    } else {
        assert(command_bindings(commands, n)[i] == entry_bindings(e)[i - before.len()]);
        if i == before.len() {
            assert(seq![e.hotkey@][0] == x);
        } else {
            assert(present(e.set_hotkey)[0] == x);
        }
    }
    in_either(specs, seq![e.hotkey@], x);
    in_either(specs + seq![e.hotkey@], present(e.set_hotkey), x);
}

/// A combo that is bound twice is not reported twice: there are no more reports
/// than bindings after the first.
pub proof fn reports_are_few(
    bs: Seq<(Seq<char>, Seq<char>)>,
    readings: Seq<HotkeyReading>,
    n: nat,
)
    requires
        0 < n <= bs.len(),
    ensures
        collision_warnings(bs, readings, n).len() < n,
    decreases n,
{
    if n > 1 {
        reports_are_few(bs, readings, (n - 1) as nat);
    } else {
        assert(collision_warnings(bs, readings, 0).len() == 0);
    }
}

/// Of the bindings that share a combo with a later one, the earliest is named
/// in the report.
pub proof fn earliest_binding_is_named(
    bs: Seq<(Seq<char>, Seq<char>)>,
    readings: Seq<HotkeyReading>,
    n: nat,
    i: int,
    j: int,
)
    requires
        0 <= i < j < n <= bs.len(),
        collide(bs[i], bs[j], readings),
        forall|k: int| 0 <= k < i ==> !collide(#[trigger] bs[k], bs[j], readings),
    ensures
        collision_warnings(bs, readings, n).contains(collision_text(bs[i], bs[j])),
    decreases n,
{
    let before = collision_warnings(bs, readings, (n - 1) as nat);
    let now = collision_warnings(bs, readings, n);
    let t = collision_text(bs[i], bs[j]);
    if j == n - 1 {
        earliest_is_first(bs, readings, i, j, 0);
        assert(now[before.len() as int] == t);
    } else {
        earliest_binding_is_named(bs, readings, (n - 1) as nat, i, j);
        let at = choose|at: int| 0 <= at < before.len() && before[at] == t;
        assert(now[at] == t);
    }
}

proof fn earliest_is_first(
    bs: Seq<(Seq<char>, Seq<char>)>,
    readings: Seq<HotkeyReading>,
    i: int,
    j: int,
    from: int,
)
    requires
        0 <= from <= i < j,
        collide(bs[i], bs[j], readings),
        forall|k: int| from <= k < i ==> !collide(#[trigger] bs[k], bs[j], readings),
    ensures
        first_collision(bs, readings, j, from) == Some(i),
    decreases i - from,
{
    if from < i {
        assert(!collide(bs[from], bs[j], readings));
        earliest_is_first(bs, readings, i, j, from + 1);
    }
}

/// The report on a combo that is bound twice names both bindings, each with
/// the combo as it is written there.
pub proof fn reports_name_both_bindings(a: (Seq<char>, Seq<char>), b: (Seq<char>, Seq<char>))
    ensures
        has_text(collision_text(a, b), a.0 + " ('"@ + a.1 + "') and "@ + b.0 + " ('"@ + b.1 + "')"@),
{
    reveal_strlit(
        "') use the same combo — one press fires both actions; rebind one of them",
    );
    reveal_strlit("')");
    reveal_strlit(" use the same combo — one press fires both actions; rebind one of them");
    let head = "duplicate hotkey binding: "@;
    let tail = " use the same combo — one press fires both actions; rebind one of them"@;
    let core = a.0 + " ('"@ + a.1 + "') and "@ + b.0 + " ('"@ + b.1 + "')"@;
    assert("') use the same combo — one press fires both actions; rebind one of them"@ =~= "')"@
        + tail);
    assert(collision_text(a, b) =~= head + core + tail);
    starting_with_is_being_followed(tail, core, head);
}

/// Of the commands as a whole just two things are said: that no model runs
/// them, and that a backend that transcribes as it goes does not do so for
/// them.
pub proof fn commands_as_a_whole(c: Config, w: Surroundings)
    requires
        c.llm_commands@.len() > 0,
    ensures
        ({
            let streaming = c.general.backend@ == "deepgram-streaming"@ || c.general.backend@
                == "openai-realtime"@ || c.general.backend@ == "openai-compatible-realtime"@;
            let entries = entry_warnings(c.llm_commands@, w.hotkeys@, c.llm_commands@.len());
            &&& command_warnings(c, w).len() == (if c.llm is None {
                1int
            } else {
                0int
            }) + (if streaming {
                1int
            } else {
                0int
            }) + entries.len()
            &&& streaming ==> command_warnings(c, w).contains(
                ONE_SHOT_HEAD@ + c.general.backend@ + ONE_SHOT_TAIL@,
            )
            &&& command_warnings(c, w).skip(command_warnings(c, w).len() - entries.len()) == entries
        }),
{
    let all = command_warnings(c, w);
    let entries = entry_warnings(c.llm_commands@, w.hotkeys@, c.llm_commands@.len());
    assert(all.skip(all.len() - entries.len()) =~= entries);
    if is_streaming(c.general.backend@) {
        let i: int = if c.llm is None {
            1
        } else {
            0
        };
        assert(all[i] == ONE_SHOT_HEAD@ + c.general.backend@ + ONE_SHOT_TAIL@);
    }
}

/// A local backend uses the model that its section names.
pub proof fn configured_models_are_used(c: Config, data_dir: Option<Seq<char>>)
    ensures
        c.local_whisper matches Some(l) ==> whisper_model(c, data_dir) == l.model_path@,
        c.local_vosk matches Some(l) ==> vosk_model(c) == l.model_path@,
        c.local_parakeet matches Some(l) ==> parakeet_model(c) == l.model_path@,
        c.local_vosk is None ==> vosk_model(c).len() == 0,
        c.local_parakeet is None ==> parakeet_model(c).len() == 0,
{
    reveal_strlit("");
}

} // verus!
