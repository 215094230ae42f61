//! What the setup owes its user: every answer ends up where it belongs, no
//! question comes twice, and nothing is changed that was not agreed to.

use crate::config::backend_setup::{
    backend_ask, backend_key_state, backend_kind, backend_labels, backend_name, chosen_name,
    is_selection, key_state, model_destination, model_dir, model_file, model_url,
    openai_model_labels, openai_model_name, turn_detection_labels, turn_detection_name,
    whisper_model_labels, whisper_model_name, BackendAnswers, BackendAsk, BackendConfigSelection,
    BackendKind, KeyState,
};
use crate::config::llm_setup::{llm_ask, provider_at, provider_labels, LlmAnswers, LlmAsk, Provider};
use crate::config::secrets::names_tell_backends_apart;
use crate::config::setup::{
    index_or_first, injector_index, injector_labels, is_course, language_ask, language_code_list,
    language_label, language_labels, language_name_list, overlay_theme, overlay_theme_labels,
    padded, spaces, stage_follows, LanguageAsk, SetupStage,
};
use crate::config::types::{path_join, Config, InjectorBackend};
use crate::config::validate::whisper_model;
use crate::config::validate_laws::blank_is_white_space;
use crate::text::{ends_with, opt_text, starts_with, trim};
use crate::text_laws::all_white;
use vstd::prelude::*;

verus! {

/// A key that was typed is used wherever none was found or the one found is
/// not kept, and one is asked for there until it is typed. A key that is kept
/// is used as it is.
pub proof fn typed_or_kept_key_is_used(
    found: Option<Seq<char>>,
    keep: Option<bool>,
    typed: Option<Seq<char>>,
)
    ensures
        (found matches Some(k) ==> k.len() == 0 || keep == Some(false)) ==> (match typed {
            Some(t) => key_state(found, keep, typed) == KeyState::Known(t),
            None => key_state(found, keep, typed) is Ask,
        }),
        (found matches Some(k) && k.len() > 0) && keep == Some(true) ==> key_state(
            found,
            keep,
            typed,
        ) == KeyState::Known(found->0),
        (found matches Some(k) && k.len() > 0) && keep is None ==> key_state(found, keep, typed)
            is Offer,
{
}

/// A service that was never configured gets the key that was typed, and the
/// model that is usual with it, in its own section and no other.
pub proof fn typed_key_stands_in_its_section(
    sel: BackendConfigSelection,
    kind: BackendKind,
    data_dir: Option<Seq<char>>,
    a: BackendAnswers,
)
    requires
        is_selection(sel, kind, None, data_dir, a),
        a.key is Some,
    ensures
        kind is Groq ==> (sel.groq matches Some(g) && g.api_key@ == a.key->0@ && g.model@
            == "whisper-large-v3-turbo"@),
        kind is Deepgram ==> (sel.deepgram matches Some(d) && d.api_key@ == a.key->0@ && d.model@
            == "nova-3"@),
        kind is OpenAiRealtime ==> (sel.openai matches Some(o) && o.api_key@ == a.key->0@
            && o.model@ == "gpt-realtime-whisper"@),
        kind is OpenAi ==> (sel.openai matches Some(o) && o.api_key@ == a.key->0@),
        !(kind is Groq) ==> sel.groq is None,
        !(kind is Deepgram) ==> sel.deepgram is None,
        !(kind is OpenAi || kind is OpenAiRealtime) ==> sel.openai is None,
        !(kind is LocalWhisper) ==> sel.local_whisper is None,
        !(kind is Sidecar) ==> sel.asr_sidecar is None,
        !(kind is CompatibleRealtime) ==> sel.openai_compatible_realtime is None,
{
}

/// A key that is kept stays in its section as it is, and the model there too.
pub proof fn kept_key_stays_in_its_section(
    sel: BackendConfigSelection,
    kind: BackendKind,
    c: &Config,
    data_dir: Option<Seq<char>>,
    a: BackendAnswers,
)
    requires
        is_selection(sel, kind, Some(c), data_dir, a),
        a.keep_key == Some(true),
    ensures
        kind is Groq && (c.groq matches Some(g) && g.api_key@.len() > 0) ==> (sel.groq matches Some(
            g,
        ) && g.api_key@ == c.groq->0.api_key@ && g.model@ == c.groq->0.model@),
        kind is Deepgram && (c.deepgram matches Some(d) && d.api_key@.len() > 0) ==> (
        sel.deepgram matches Some(d) && d.api_key@ == c.deepgram->0.api_key@ && d.model@
            == c.deepgram->0.model@),
        (kind is OpenAi || kind is OpenAiRealtime) && (c.openai matches Some(o) && o.api_key@.len()
            > 0) ==> (sel.openai matches Some(o) && o.api_key@ == c.openai->0.api_key@),
        kind is CompatibleRealtime && (c.openai_compatible_realtime matches Some(x)
            && x.api_key is Some && x.api_key->0@.len() > 0) ==> (
        sel.openai_compatible_realtime matches Some(x) && opt_text(x.api_key) == opt_text(
            c.openai_compatible_realtime->0.api_key,
        )),
{
}

/// A key that is replaced gives way to the one that was typed.
pub proof fn replaced_key_gives_way(
    sel: BackendConfigSelection,
    kind: BackendKind,
    c: &Config,
    data_dir: Option<Seq<char>>,
    a: BackendAnswers,
)
    requires
        is_selection(sel, kind, Some(c), data_dir, a),
        a.keep_key == Some(false),
        a.key is Some,
    ensures
        kind is Groq ==> (sel.groq matches Some(g) && g.api_key@ == a.key->0@),
        kind is Deepgram ==> (sel.deepgram matches Some(d) && d.api_key@ == a.key->0@),
        kind is OpenAi || kind is OpenAiRealtime ==> (sel.openai matches Some(o) && o.api_key@
            == a.key->0@),
        kind is CompatibleRealtime ==> (sel.openai_compatible_realtime matches Some(x) && opt_text(
            x.api_key,
        ) == (if all_white(a.key->0@) {
            None
        } else {
            Some(a.key->0@)
        })),
{
    blank_is_white_space(a.key->0@);
}

/// The address and the model that were given stand in the section, and a
/// sidecar keeps the token that it had.
pub proof fn given_address_and_model_are_used(
    sel: BackendConfigSelection,
    kind: BackendKind,
    existing: Option<&Config>,
    data_dir: Option<Seq<char>>,
    a: BackendAnswers,
)
    requires
        is_selection(sel, kind, existing, data_dir, a),
        a.url is Some,
        a.model is Some,
    ensures
        kind is CompatibleRealtime ==> (sel.openai_compatible_realtime matches Some(x) && x.url@
            == a.url->0@ && x.model@ == a.model->0@ && x.profile@ == "lemonade"@),
        kind is CompatibleRealtime && a.turn_detection == Some(0usize) ==> (
        sel.openai_compatible_realtime matches Some(x) && x.turn_detection@ == "server-vad"@),
        kind is CompatibleRealtime && a.turn_detection == Some(1usize) ==> (
        sel.openai_compatible_realtime matches Some(x) && x.turn_detection@ == "manual-commit"@),
        kind is Sidecar ==> (sel.asr_sidecar matches Some(x) && x.url@ == a.url->0@ && x.model@
            == a.model->0@),
        kind is Sidecar && (existing matches Some(c) && c.asr_sidecar is Some) ==> opt_text(
            sel.asr_sidecar->0.api_key,
        ) == opt_text(existing->0.asr_sidecar->0.api_key),
{
}

/// What is offered is what the configuration at hand has.
pub proof fn settings_at_hand_are_offered(
    c: &Config,
    data_dir: Option<Seq<char>>,
    a: BackendAnswers,
)
    ensures
        c.openai_compatible_realtime is Some && a.url is None ==> backend_ask(
            BackendKind::CompatibleRealtime,
            Some(c),
            data_dir,
            a,
        ) == BackendAsk::EnterUrl(c.openai_compatible_realtime->0.url@),
        c.openai_compatible_realtime is Some && a.url is Some && a.model is None ==> backend_ask(
            BackendKind::CompatibleRealtime,
            Some(c),
            data_dir,
            a,
        ) == BackendAsk::EnterModel(c.openai_compatible_realtime->0.model@),
        c.asr_sidecar is Some && a.url is None ==> backend_ask(
            BackendKind::Sidecar,
            Some(c),
            data_dir,
            a,
        ) == BackendAsk::EnterUrl(c.asr_sidecar->0.url@),
        c.asr_sidecar is Some && a.url is Some && a.model is None ==> backend_ask(
            BackendKind::Sidecar,
            Some(c),
            data_dir,
            a,
        ) == BackendAsk::EnterModel(c.asr_sidecar->0.model@),
{
}

/// Once everything is answered there is nothing left to ask.
pub proof fn answered_questions_suffice(
    kind: BackendKind,
    existing: Option<&Config>,
    data_dir: Option<Seq<char>>,
    a: BackendAnswers,
)
    requires
        a.keep_key is Some,
        a.key is Some,
        a.url is Some,
        a.model is Some,
        a.openai_model is Some,
        a.profile is Some,
        a.turn_detection is Some,
        a.whisper_model is Some,
        a.model_present is Some,
        a.download is Some,
        a.downloaded,
    ensures
        backend_ask(kind, existing, data_dir, a) is Done,
{
}

/// A model is downloaded only where it is not there and the user chose so, and
/// then to the place where it is looked for and used.
pub proof fn models_are_downloaded_where_they_are_used(
    existing: Option<&Config>,
    data_dir: Option<Seq<char>>,
    a: BackendAnswers,
    sel: BackendConfigSelection,
)
    ensures
        ({
            let ask = backend_ask(BackendKind::LocalWhisper, existing, data_dir, a);
            ask is Download ==> a.model_present == Some(false) && a.download == Some(0usize)
                && !a.downloaded
        }),
        is_selection(sel, BackendKind::LocalWhisper, existing, data_dir, a)
            && a.whisper_model is Some ==> ({
            let dest = sel.local_whisper->0.model_path@;
            let ask = backend_ask(BackendKind::LocalWhisper, existing, data_dir, a);
            &&& ask is LookForModel ==> ask == BackendAsk::LookForModel(dest)
            &&& ask is OfferDownload ==> ask == BackendAsk::OfferDownload(dest)
            &&& ask is Download ==> exists|from: Seq<char>|
                #[trigger] ends_with(from, model_file(whisper_model_name(a.whisper_model->0 as int)))
                    && ask == BackendAsk::Download(from, dest)
        }),
{
    if a.whisper_model is Some {
        let name = whisper_model_name(a.whisper_model->0 as int);
        let from = model_url(name);
        assert(from.skip(from.len() - model_file(name).len()) =~= model_file(name));
        assert(ends_with(from, model_file(name)));
    }
}

/// The model that a backend without a section of its own uses is the one that
/// is recommended, in the place where the setup puts it.
pub proof fn recommended_model_is_the_usual_one(c: Config, data_dir: Option<Seq<char>>)
    requires
        c.local_whisper is None,
    ensures
        whisper_model(c, data_dir) == model_destination(data_dir, 1),
        whisper_model_name(1) == "base.en"@,
{
    reveal_strlit("whisrs/models");
    reveal_strlit("whisrs/models/ggml-base.en.bin");
    reveal_strlit("base.en");
    reveal_strlit("ggml-");
    reveal_strlit(".bin");
    reveal_strlit("/");
    let dir = match data_dir {
        Some(d) => d,
        None => "~/.local/share"@,
    };
    let sub = model_dir(data_dir);
    assert(sub.last() == 's');
    assert(model_destination(data_dir, 1) =~= path_join(dir, "whisrs/models/ggml-base.en.bin"@));
}

/// Every backend that is offered is one that can be configured, and each stands
/// for its own kind.
pub proof fn offered_backends_are_known(selection: int)
    requires
        0 <= selection < 8,
    ensures
        backend_kind(chosen_name(selection)) == (if selection == 0 {
            BackendKind::Groq
        } else if selection == 1 || selection == 2 {
            BackendKind::Deepgram
        } else if selection == 3 {
            BackendKind::OpenAiRealtime
        } else if selection == 4 {
            BackendKind::OpenAi
        } else if selection == 5 {
            BackendKind::CompatibleRealtime
        } else if selection == 6 {
            BackendKind::LocalWhisper
        } else {
            BackendKind::Sidecar
        }),
        selection == 1 ==> chosen_name(selection) == "deepgram-streaming"@,
{
    names_tell_backends_apart();
}

/// A model, or a way to detect turns, is offered under its own name.
pub proof fn choices_are_labelled_by_their_names(i: int)
    ensures
        0 <= i < openai_model_labels().len() ==> starts_with(
            openai_model_labels()[i],
            openai_model_name(i),
        ),
        0 <= i < whisper_model_labels().len() ==> starts_with(
            whisper_model_labels()[i],
            whisper_model_name(i),
        ),
        0 <= i < turn_detection_labels().len() ==> starts_with(
            turn_detection_labels()[i],
            turn_detection_name(i),
        ),
{
    reveal_strlit("gpt-4o-mini-transcribe (recommended)");
    reveal_strlit("gpt-4o-mini-transcribe");
    reveal_strlit("gpt-4o-transcribe");
    reveal_strlit("whisper-1");
    reveal_strlit("tiny.en    (75 MB,  decent accuracy, very fast)");
    reveal_strlit("base.en    (142 MB, good accuracy, real-time)  <- recommended");
    reveal_strlit("small.en   (466 MB, very good accuracy, slower)");
    reveal_strlit("tiny.en");
    reveal_strlit("base.en");
    reveal_strlit("small.en");
    reveal_strlit("server-vad    (recommended — type completed phrases while you keep speaking)");
    reveal_strlit("manual-commit (flush only when recording stops)");
    reveal_strlit("server-vad");
    reveal_strlit("manual-commit");
    if 0 <= i < openai_model_labels().len() {
        let l = openai_model_labels()[i];
        let n = openai_model_name(i);
        assert(l.take(n.len() as int) =~= n);
    }
    if 0 <= i < whisper_model_labels().len() {
        let l = whisper_model_labels()[i];
        let n = whisper_model_name(i);
        assert(l.take(n.len() as int) =~= n);
    }
    if 0 <= i < turn_detection_labels().len() {
        let l = turn_detection_labels()[i];
        let n = turn_detection_name(i);
        assert(l.take(n.len() as int) =~= n);
    }
}

/// A provider is offered under its own name, and each has a name and an
/// address of its own.
pub proof fn providers_are_offered_by_name(i: int, p: Provider, q: Provider)
    ensures
        0 <= i < 4 ==> (provider_at(i) matches Some(x) && starts_with(
            provider_labels()[i],
            x.spec_name(),
        )),
        i < 0 || i >= 4 ==> provider_at(i) is None,
        p.spec_name() == q.spec_name() ==> p == q,
        p.spec_url() == q.spec_url() ==> p == q,
{
    reveal_strlit("OpenAI         (recommended)");
    reveal_strlit("Groq           (fast, free tier)");
    reveal_strlit("OpenRouter     (many models, free options)");
    reveal_strlit("Google Gemini  (generous free tier)");
    reveal_strlit("OpenAI");
    reveal_strlit("Groq");
    reveal_strlit("OpenRouter");
    reveal_strlit("Google");
    reveal_strlit("https://api.openai.com/v1/chat/completions");
    reveal_strlit("https://api.groq.com/openai/v1/chat/completions");
    reveal_strlit("https://openrouter.ai/api/v1/chat/completions");
    reveal_strlit("https://generativelanguage.googleapis.com/v1beta/openai/chat/completions");
    if 0 <= i < 4 {
        let l = provider_labels()[i];
        let n = provider_at(i)->0.spec_name();
        assert(l.take(n.len() as int) =~= n);
    }
    if p.spec_name() == q.spec_name() {
        assert(p.spec_name()[0] == q.spec_name()[0]);
        assert(p.spec_name()[1] == q.spec_name()[1]);
        assert(p.spec_name().len() == q.spec_name().len());
    }
    if p.spec_url() == q.spec_url() {
        assert(p.spec_url().len() == q.spec_url().len());
        assert(p.spec_url()[12] == q.spec_url()[12]);
    }
}

/// A provider with a model and a key is configured with just these, and with
/// the address of that provider; the model is the one that was picked from its
/// list, or the one that was typed.
pub proof fn model_answers_are_used(a: LlmAnswers, p: Provider)
    requires
        a.provider matches Some(i) && provider_at(i as int) == Some(p),
        a.key is Some,
        a.model is Some,
    ensures
        a.model->0 < p.spec_models().len() ==> llm_ask(a) == LlmAsk::Done(
            a.key->0@,
            p.spec_models()[a.model->0 as int],
            p.spec_url(),
        ),
        a.model->0 >= p.spec_models().len() && a.model_name is Some ==> llm_ask(a) == LlmAsk::Done(
            a.key->0@,
            a.model_name->0@,
            p.spec_url(),
        ),
{
}

/// As many models are listed as can be picked, and one entry more, for any
/// other. Going without a provider is what is offered first.
pub proof fn model_questions_fit_their_answers(a: LlmAnswers, p: Provider)
    ensures
        p.spec_models().len() == p.spec_model_labels().len(),
        p.spec_models().len() >= 4,
        (a.provider matches Some(i) && provider_at(i as int) == Some(p)) && a.model is None
            ==> llm_ask(a) == LlmAsk::PickModel(
            p.spec_model_labels() + seq!["Other (enter model name manually)"@],
        ),
        a.provider is None ==> (llm_ask(a) matches LlmAsk::PickProvider(i) && 0 <= i
            < provider_labels().len() && provider_at(i) is None),
        a.provider matches Some(i) && i >= 4 ==> llm_ask(a) is Skipped,
        llm_ask(a) is EnterModel ==> a.model_name is None,
        llm_ask(a) is EnterKey ==> a.key is None,
        llm_ask(a) is PickModel ==> a.model is None,
{
    assert(p.spec_model_labels() + seq!["Other (enter model name manually)"@]
        =~= p.spec_model_labels().push("Other (enter model name manually)"@));
}

/// The language in use is offered first where it is in the list, and the first
/// of the list where it is not.
pub proof fn language_in_use_is_offered_first(list: Seq<Seq<char>>, x: Seq<char>, i: int)
    requires
        0 <= i <= list.len(),
        list.len() > 0,
        forall|k: int| 0 <= k < i ==> #[trigger] list[k] != x,
    ensures
        0 <= index_or_first(list, x, i) < list.len(),
        list.contains(x) ==> list[index_or_first(list, x, i)] == x,
        !list.contains(x) ==> index_or_first(list, x, i) == 0,
    decreases list.len() - i,
{
    if i < list.len() {
        if list[i] != x {
            language_in_use_is_offered_first(list, x, i + 1);
        } else {
            assert(list.contains(x));
        }
    }
}

/// Picking a language gives the code that stands behind its name; any entry
/// after the list asks for a code, and gives just what was typed.
pub proof fn picked_language_is_used(
    existing: Option<&Config>,
    selection: usize,
    code: Option<Seq<char>>,
)
    ensures
        language_code_list().len() == language_name_list().len(),
        language_labels().len() == language_code_list().len() + 1,
        selection < language_code_list().len() ==> language_ask(existing, Some(selection), code)
            == LanguageAsk::Done(language_code_list()[selection as int]) && starts_with(
            language_labels()[selection as int],
            language_name_list()[selection as int],
        ) && ends_with(
            language_labels()[selection as int],
            "("@ + language_code_list()[selection as int] + ")"@,
        ),
        selection >= language_code_list().len() && code is Some ==> language_ask(
            existing,
            Some(selection),
            code,
        ) == LanguageAsk::Done(code->0),
        selection >= language_code_list().len() && code is None ==> language_ask(
            existing,
            Some(selection),
            code,
        ) == LanguageAsk::EnterCode(
            match existing {
                Some(c) => c.general.language@,
                None => "en"@,
            },
        ),
{
    if selection < language_code_list().len() {
        let i = selection as int;
        let l = language_labels()[i];
        let n = language_name_list()[i];
        let tail = "("@ + language_code_list()[i] + ")"@;
        assert(l == language_label(i));
        reveal_strlit(" (");
        reveal_strlit("(");
        assert(padded(n, 15).take(n.len() as int) =~= n);
        assert(l.take(n.len() as int) =~= n);
        assert(" ("@ =~= seq![' '] + "("@);
        assert(l =~= padded(n, 15) + seq![' '] + tail);
        assert(l.skip(l.len() - tail.len()) =~= tail);
    }
}

/// Padding keeps the text, fills with spaces, and makes it as wide as asked.
pub proof fn padding_only_adds_spaces(s: Seq<char>, width: int)
    ensures
        padded(s, width).len() == (if s.len() < width {
            width
        } else {
            s.len() as int
        }),
        padded(s, width).take(s.len() as int) == s,
        forall|i: int|
            s.len() <= i < padded(s, width).len() ==> #[trigger] padded(s, width)[i] == ' ',
{
    assert(padded(s, width).take(s.len() as int) =~= s);
}

/// A setup from the start goes through every stage in order, one after the
/// other, up to the end: it asks about the backend, its details, the language,
/// the microphone, extras, the overlay, the injector and the model, and only
/// then writes the configuration.
pub proof fn setup_goes_through_every_stage(
    run: Seq<SetupStage>,
    choices: Seq<usize>,
    i: int,
)
    requires
        is_course(run, choices),
        run[0] == SetupStage::Backend,
        0 <= i < run.len(),
    ensures
        i == 1 ==> run[i] == SetupStage::BackendDetails,
        i == 2 ==> run[i] == SetupStage::Language,
        i == 3 ==> run[i] == SetupStage::Microphone,
        i == 4 ==> run[i] == SetupStage::Extras,
        i == 5 ==> run[i] == SetupStage::Overlay,
        i == 6 ==> run[i] == SetupStage::Injector,
        i == 7 ==> run[i] == SetupStage::Llm,
        i == 8 ==> run[i] == SetupStage::WriteConfig,
        i == 9 ==> run[i] == SetupStage::Permissions,
        i == 10 ==> run[i] == SetupStage::Service,
        i == 11 ==> run[i] == SetupStage::Keybinding,
        i == 12 ==> run[i] == SetupStage::Summary,
        i >= 13 ==> run[i] == SetupStage::Finished,
    decreases i,
{
    if i > 0 {
        setup_goes_through_every_stage(run, choices, i - 1);
        assert(stage_follows(run[i - 1], choices[i - 1], run[i - 1 + 1]));
    }
}

/// A theme is offered under its name, written with a capital letter, and so is
/// the injector that is chosen by itself; the two others are offered under
/// their names as they are.
pub proof fn themes_and_injectors_are_labelled_by_their_names(i: int, b: InjectorBackend)
    ensures
        0 <= i < overlay_theme_labels().len() ==> overlay_theme_labels()[i].subrange(
            1,
            overlay_theme(i).len() as int,
        ) == overlay_theme(i).skip(1),
        overlay_theme(0) == "carbon"@,
        0 <= injector_index(b) < injector_labels().len(),
        injector_labels()[injector_index(b)].subrange(1, b.spec_name().len() as int)
            == b.spec_name().skip(1),
        b != InjectorBackend::Auto ==> starts_with(
            injector_labels()[injector_index(b)],
            b.spec_name(),
        ),
{
    reveal_strlit("Carbon  — monochrome, terminal-clean (recommended)");
    reveal_strlit("Ember   — warm amber \"tally light\"");
    reveal_strlit("Cyan    — electric blue, audio-equipment vibe");
    reveal_strlit("carbon");
    reveal_strlit("ember");
    reveal_strlit("cyan");
    reveal_strlit("Auto        (recommended — Wayland virtual keyboard, falls back to uinput)");
    reveal_strlit("uinput      (evdev/uinput; layout-dependent on Wayland)");
    reveal_strlit("wayland-vk  (force zwp_virtual_keyboard_v1 — fixes bilingual typing on Wayland)");
    reveal_strlit("auto");
    reveal_strlit("uinput");
    reveal_strlit("wayland-vk");
    if 0 <= i < overlay_theme_labels().len() {
        let t = overlay_theme(i);
        assert(overlay_theme_labels()[i].subrange(1, t.len() as int) =~= t.skip(1));
    }
    let n = b.spec_name();
    let l = injector_labels()[injector_index(b)];
    assert(l.subrange(1, n.len() as int) =~= n.skip(1));
    if b != InjectorBackend::Auto {
        assert(l.take(n.len() as int) =~= n);
    }
}

/// A backend is offered under the name of its service and of its way to
/// transcribe.
pub proof fn backends_are_labelled_by_their_services()
    ensures
        backend_labels().len() == 8,
        starts_with(backend_labels()[0], "Groq "@) && backend_name(0) == "groq"@,
        starts_with(backend_labels()[1], "Deepgram Streaming "@) && backend_name(1)
            == "deepgram-streaming"@,
        starts_with(backend_labels()[2], "Deepgram REST "@) && backend_name(2) == "deepgram"@,
        starts_with(backend_labels()[3], "OpenAI Realtime "@) && backend_name(3)
            == "openai-realtime"@,
        starts_with(backend_labels()[4], "OpenAI REST "@) && backend_name(4) == "openai"@,
        starts_with(backend_labels()[5], "OpenAI-compatible Realtime "@) && backend_name(5)
            == "openai-compatible-realtime"@,
        starts_with(backend_labels()[6], "Local "@) && backend_name(6) == "local"@,
        starts_with(backend_labels()[7], "ASR sidecar "@) && backend_name(7) == "asr-sidecar"@,
{
    reveal_strlit("Groq               (free, fast, cloud)");
    reveal_strlit("Deepgram Streaming (free credits, true streaming, cloud)");
    reveal_strlit("Deepgram REST      (free credits, simple, cloud)");
    reveal_strlit("OpenAI Realtime    (best streaming, cloud)");
    reveal_strlit("OpenAI REST        (simple, cloud)");
    reveal_strlit("OpenAI-compatible Realtime (external WebSocket, Lemonade-style)");
    reveal_strlit("Local              (offline, no API key needed)");
    reveal_strlit("ASR sidecar        (local HTTP sidecar, model-agnostic)");
    reveal_strlit("Groq ");
    reveal_strlit("Deepgram Streaming ");
    reveal_strlit("Deepgram REST ");
    reveal_strlit("OpenAI Realtime ");
    reveal_strlit("OpenAI REST ");
    reveal_strlit("OpenAI-compatible Realtime ");
    reveal_strlit("Local ");
    reveal_strlit("ASR sidecar ");
    assert(backend_labels()[0].take(5) =~= "Groq "@);
    assert(backend_labels()[1].take(19) =~= "Deepgram Streaming "@);
    assert(backend_labels()[2].take(14) =~= "Deepgram REST "@);
    assert(backend_labels()[3].take(16) =~= "OpenAI Realtime "@);
    assert(backend_labels()[4].take(12) =~= "OpenAI REST "@);
    assert(backend_labels()[5].take(27) =~= "OpenAI-compatible Realtime "@);
    assert(backend_labels()[6].take(6) =~= "Local "@);
    assert(backend_labels()[7].take(12) =~= "ASR sidecar "@);
}

/// The models of OpenAI are offered under their own names.
pub proof fn models_are_labelled_by_their_names(i: int)
    ensures
        0 <= i < Provider::OpenAi.spec_models().len() ==> starts_with(
            Provider::OpenAi.spec_model_labels()[i],
            Provider::OpenAi.spec_models()[i],
        ),
{
    reveal_strlit("gpt-4o-mini             (cheap, great quality) <- recommended");
    reveal_strlit("gpt-5-mini              (newest, smarter, costs more)");
    reveal_strlit("gpt-5.4-nano            (cheapest, fastest, newest)");
    reveal_strlit("gpt-5.4-mini            (newest mini, best quality)");
    reveal_strlit("gpt-4o                  (powerful, costs more)");
    reveal_strlit("gpt-4o-mini");
    reveal_strlit("gpt-5-mini");
    reveal_strlit("gpt-5.4-nano");
    reveal_strlit("gpt-5.4-mini");
    reveal_strlit("gpt-4o");
    if 0 <= i < Provider::OpenAi.spec_models().len() {
        let n = Provider::OpenAi.spec_models()[i];
        assert(Provider::OpenAi.spec_model_labels()[i].take(n.len() as int) =~= n);
    }
}

/// A backend is configured only once everything that it needs is known: its
/// key, its address, its model, and a file that is there or was offered for
/// download.
pub proof fn nothing_needed_is_left_out(
    kind: BackendKind,
    existing: Option<&Config>,
    data_dir: Option<Seq<char>>,
    a: BackendAnswers,
)
    requires
        backend_ask(kind, existing, data_dir, a) is Done,
    ensures
        kind is Groq || kind is Deepgram || kind is OpenAi || kind is OpenAiRealtime
            || kind is CompatibleRealtime ==> backend_key_state(kind, existing, a) is Known,
        kind is OpenAi ==> a.openai_model is Some,
        kind is CompatibleRealtime ==> a.url is Some && a.model is Some && a.profile is Some
            && a.turn_detection is Some,
        kind is Sidecar ==> a.url is Some && a.model is Some,
        kind is LocalWhisper ==> a.whisper_model is Some && a.model_present is Some && (
        a.model_present == Some(false) ==> a.download is Some && (a.download == Some(0usize)
            ==> a.downloaded)),
{
}

/// The key that is looked at is the one in the section of the backend, and no
/// other.
pub proof fn each_backend_has_its_own_key(kind: BackendKind, c: &Config, a: BackendAnswers)
    ensures
        kind is Groq && c.groq is Some ==> backend_key_state(kind, Some(c), a) == key_state(
            Some(c.groq->0.api_key@),
            a.keep_key,
            opt_text(a.key),
        ),
        kind is Deepgram && c.deepgram is Some ==> backend_key_state(kind, Some(c), a) == key_state(
            Some(c.deepgram->0.api_key@),
            a.keep_key,
            opt_text(a.key),
        ),
        (kind is OpenAi || kind is OpenAiRealtime) && c.openai is Some ==> backend_key_state(
            kind,
            Some(c),
            a,
        ) == key_state(Some(c.openai->0.api_key@), a.keep_key, opt_text(a.key)),
        kind is Groq && c.groq is None || kind is Deepgram && c.deepgram is None || (kind is OpenAi
            || kind is OpenAiRealtime) && c.openai is None ==> backend_key_state(kind, Some(c), a)
            == key_state(None, a.keep_key, opt_text(a.key)),
{
}

/// The way to detect turns that is in use is offered first.
pub proof fn turn_detection_in_use_is_offered(
    c: &Config,
    data_dir: Option<Seq<char>>,
    a: BackendAnswers,
)
    requires
        a.url is Some,
        a.model is Some,
        a.profile is Some,
        a.turn_detection is None,
        c.openai_compatible_realtime is Some,
        trim(c.openai_compatible_realtime->0.turn_detection@) == "manual-commit"@ || trim(
            c.openai_compatible_realtime->0.turn_detection@,
        ) == "server-vad"@,
    ensures
        backend_ask(
            BackendKind::CompatibleRealtime,
            Some(c),
            data_dir,
            a,
        ) matches BackendAsk::PickTurnDetection(i) && turn_detection_name(i) == trim(
            c.openai_compatible_realtime->0.turn_detection@,
        ),
{
    reveal_strlit("manual-commit");
    reveal_strlit("server-vad");
    assert("manual-commit"@.len() != "server-vad"@.len());
}

/// A local backend uses the model that was picked, where it was looked for, and
/// cuts its phrases at silences of 400 milliseconds.
pub proof fn picked_model_is_used(
    sel: BackendConfigSelection,
    existing: Option<&Config>,
    data_dir: Seq<char>,
    a: BackendAnswers,
)
    requires
        is_selection(sel, BackendKind::LocalWhisper, existing, Some(data_dir), a),
        a.whisper_model is Some,
        data_dir.len() > 0,
        data_dir.last() != '/',
    ensures
        sel.local_whisper matches Some(w) && w.model_path@ == data_dir + "/whisrs/models/ggml-"@ + (
        if a.whisper_model == Some(0usize) {
            "tiny.en"@
        } else if a.whisper_model == Some(1usize) {
            "base.en"@
        } else {
            "small.en"@
        }) + ".bin"@ && w.segmentation@ == "silence"@ && w.phrase_silence_ms == 400,
{
    reveal_strlit("whisrs/models");
    reveal_strlit("/whisrs/models/ggml-");
    reveal_strlit("ggml-");
    reveal_strlit("/");
    let name = whisper_model_name(a.whisper_model->0 as int);
    let sub = model_dir(Some(data_dir));
    assert(sub.last() == 's');
    assert(model_destination(Some(data_dir), a.whisper_model->0 as int) =~= data_dir
        + "/whisrs/models/ggml-"@ + name + ".bin"@);
}

/// Where the configuration at hand is kept, the summary follows at once, and
/// then the end.
pub proof fn kept_configuration_goes_to_the_summary(
    run: Seq<SetupStage>,
    choices: Seq<usize>,
    i: int,
)
    requires
        is_course(run, choices),
        run[0] == SetupStage::OfferExisting,
        choices.len() > 0,
        0 < i < run.len(),
    ensures
        choices[0] == 0 && i == 1 ==> run[i] == SetupStage::Summary,
        choices[0] == 0 && i > 1 ==> run[i] == SetupStage::Finished,
        choices[0] != 0 && i == 1 ==> run[i] == SetupStage::Backend,
    decreases i,
{
    assert(stage_follows(run[0], choices[0], run[0int + 1]));
    if i > 1 {
        kept_configuration_goes_to_the_summary(run, choices, i - 1);
        assert(stage_follows(run[i - 1], choices[i - 1], run[i - 1 + 1]));
    }
}

} // verus!
