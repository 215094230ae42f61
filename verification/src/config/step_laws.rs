//! What the steps of the program owe its user: they end, they touch nothing
//! that was not agreed to, and what they report is what happened.

use crate::config::backend_setup::BackendConfigSelection;
use crate::config::desktop::{
    already_bound, binding_ask, binding_host, binding_text, desktop_compositor, extension_ask,
    extensions_dir, service_ask, service_dir, service_file, service_unit, BindingAsk, BindingHost,
    BindingProgress, ExtensionAsk, ExtensionOutcome, ExtensionProgress, ServiceAsk, ServiceOutcome,
    ServiceProgress,
};
use crate::config::editors::{
    command_label, is_number, menu_text, nonblank, number_or, trimmed_hotkey, volume_in_range,
    with_backend,
};
use crate::config::permissions::{
    contrib_places, first_there, install_rule_command, program_path, uinput_ask, DeviceAccess,
    Repair, UinputAsk, UinputOutcome, UinputProgress,
};
use crate::config::save_plan::csv_entries;
use crate::config::session::{
    advice_after, menu_index, menu_labels, save_ask, saved_vocabulary, session_terms, starts_from,
    ConfigSession, MenuEntry, SaveAsk, SaveProgress, VocabularyRead,
};
use crate::config::types::{path_join, Config, GeneralConfig, LlmCommandConfig};
use crate::config::validate_laws::blank_is_white_space;
use crate::config::vocabulary::{merged_terms_are_distinct, rendered};
use crate::service::{RestartAdvice, RestartOutcome, ServiceManager};
use crate::text::{decimal, has_text, join, opt_text, starts_with, texts, trim, unsigned_value};
use crate::text_laws::{
    all_white, decimal_reads_back, starting_with_is_being_followed,
    trimming_gives_what_stands_between,
};
use vstd::prelude::*;

verus! {

/// Each entry of the menu stands at the place of its own label.
pub proof fn entries_stand_at_their_labels(e: MenuEntry)
    ensures
        0 <= menu_index(e) < menu_labels().len(),
        menu_labels()[menu_index(e)] == (match e {
            MenuEntry::Backend => "Backend & API keys"@,
            MenuEntry::Language => "Language"@,
            MenuEntry::Behavior => "Behavior (silence timeout, notifications, audio feedback)"@,
            MenuEntry::FillerWords => "Filler words"@,
            MenuEntry::Vocabulary => "Vocabulary & prompt"@,
            MenuEntry::AudioDevice => "Audio device"@,
            MenuEntry::KeyDelay => "Keyboard injection (key delay)"@,
            MenuEntry::ClipboardFallback => "Clipboard fallback (copy transcript to clipboard)"@,
            MenuEntry::ClipboardOnly => "Clipboard-only mode (no injection)"@,
            MenuEntry::Hotkeys => "Hotkeys"@,
            MenuEntry::TrayOverlay => "Tray & overlay"@,
            MenuEntry::RecordingHooks => "Recording hooks"@,
            MenuEntry::Llm => "Command mode (LLM)"@,
            MenuEntry::LlmCommands => "Custom LLM commands"@,
            MenuEntry::ShowConfig => "Show full config (masked)"@,
            MenuEntry::OpenEditor => "Open in $EDITOR"@,
            MenuEntry::Separator => "─────────"@,
            MenuEntry::Save => "Save & exit"@,
            MenuEntry::Discard => "Discard & exit"@,
        }),
{
}

/// A session has every term of the configuration and of the file, each once;
/// a file that is missing or cannot be read adds none.
pub proof fn session_has_every_term(
    own: Seq<Seq<char>>,
    vocabulary: VocabularyRead,
    x: Seq<char>,
)
    ensures
        match vocabulary {
            VocabularyRead::Terms(v) => (session_terms(own, vocabulary).contains(x)
                <==> own.contains(x) || texts(v@).contains(x)) && session_terms(
                own,
                vocabulary,
            ).no_duplicates(),
            _ => session_terms(own, vocabulary) == own,
        },
{
    if let VocabularyRead::Terms(v) = vocabulary {
        let file = texts(v@);
        let all = own + file;
        merged_terms_are_distinct(all, all.len());
        assert(all.take(all.len() as int) =~= all);
        if own.contains(x) {
            let i = choose|i: int| 0 <= i < own.len() && own[i] == x;
            assert(all[i] == x);
        }
        if file.contains(x) {
            let i = choose|i: int| 0 <= i < file.len() && file[i] == x;
            assert(all[own.len() + i] == x);
        }
        if all.contains(x) {
            let i = choose|i: int| 0 <= i < all.len() && all[i] == x;
            if i < own.len() {
                assert(own[i] == x);
            } else {
                assert(file[i - own.len()] == x);
            }
        }
    }
}

/// A save that is valid writes what it has to and nothing twice: each step asks
/// for something that has not happened yet.
pub proof fn save_steps_move_on(
    vocabulary: Option<Seq<char>>,
    config_path: Seq<char>,
    vocabulary_path: Seq<char>,
    fresh: bool,
    manager: ServiceManager,
    p: SaveProgress,
)
    ensures
        ({
            let ask = save_ask(
                None,
                vocabulary,
                config_path,
                vocabulary_path,
                fresh,
                manager,
                p,
            );
            match ask {
                SaveAsk::Refuse(_) => false,
                SaveAsk::WriteVocabulary(path, text) => p.vocabulary_written is None && path
                    == vocabulary_path && vocabulary == Some(text),
                SaveAsk::WriteConfig(path) => p.config_written is None && path == config_path,
                SaveAsk::ReadMode(path) => !p.mode_read && path == config_path,
                SaveAsk::Restrict(path) => !p.restricted && path == config_path,
                SaveAsk::Restart => p.restart is None,
                SaveAsk::Fail(_) => p.vocabulary_written == Some(false) || p.config_written == Some(
                    false,
                ),
                SaveAsk::Done(_, _) => true,
            }
        }),
{
}

/// Once a save is through, the configuration was written, and the vocabulary
/// too where it changed; the file is for its owner alone, as far as its
/// permissions could be read; and the daemon was to be restarted.
pub proof fn finished_save_is_complete(
    problem: Option<Seq<char>>,
    vocabulary: Option<Seq<char>>,
    config_path: Seq<char>,
    vocabulary_path: Seq<char>,
    fresh: bool,
    manager: ServiceManager,
    p: SaveProgress,
)
    requires
        save_ask(problem, vocabulary, config_path, vocabulary_path, fresh, manager, p) is Done,
    ensures
        problem is None,
        p.config_written == Some(true),
        vocabulary is Some ==> p.vocabulary_written == Some(true),
        p.mode_read,
        p.mode matches Some(m) ==> p.restricted || m as int % 512 == 384,
        p.restart is Some,
        save_ask(problem, vocabulary, config_path, vocabulary_path, fresh, manager, p)
            == SaveAsk::Done(advice_after(p.restart->0, manager), fresh),
{
}

/// A file that others may read, write or run is restricted; one that only its
/// owner reads and writes is left alone.
pub proof fn open_files_are_restricted(
    vocabulary_path: Seq<char>,
    config_path: Seq<char>,
    fresh: bool,
    manager: ServiceManager,
    p: SaveProgress,
)
    requires
        p.config_written == Some(true),
        p.mode_read,
        !p.restricted,
        p.mode is Some,
    ensures
        p.mode->0 as int % 64 != 0 ==> save_ask(
            None,
            None,
            config_path,
            vocabulary_path,
            fresh,
            manager,
            p,
        ) == SaveAsk::Restrict(config_path),
        p.mode->0 == 0o100600u32 ==> !(save_ask(
            None,
            None,
            config_path,
            vocabulary_path,
            fresh,
            manager,
            p,
        ) is Restrict),
{
    let m = p.mode->0 as int;
    assert(m % 512 == 384 ==> m % 64 == 0);
}

/// A write that failed is said: which file it was, and that the vocabulary was
/// saved before where it was.
pub proof fn failed_write_is_said(
    vocabulary: Option<Seq<char>>,
    config_path: Seq<char>,
    vocabulary_path: Seq<char>,
    fresh: bool,
    manager: ServiceManager,
    p: SaveProgress,
)
    ensures
        vocabulary is Some && p.vocabulary_written == Some(false) ==> save_ask(
            None,
            vocabulary,
            config_path,
            vocabulary_path,
            fresh,
            manager,
            p,
        ) == SaveAsk::Fail("failed to write "@ + vocabulary_path),
        vocabulary is Some && p.vocabulary_written == Some(true) && p.config_written == Some(false)
            ==> (save_ask(None, vocabulary, config_path, vocabulary_path, fresh, manager, p) matches
            SaveAsk::Fail(text) && has_text(text, vocabulary_path)),
        vocabulary is None && p.config_written == Some(false) ==> save_ask(
            None,
            vocabulary,
            config_path,
            vocabulary_path,
            fresh,
            manager,
            p,
        ) == SaveAsk::Fail("failed to write config"@),
{
    let head = "failed to write config: your vocabulary edits were already saved to "@;
    let tail = ", but config.toml was not updated"@;
    starting_with_is_being_followed(tail, vocabulary_path, head);
}

/// The advice after a restart fits what came of it: no advice is needed where
/// it worked, and a failure names the place that tells why.
pub proof fn advice_fits_the_outcome(outcome: RestartOutcome, manager: ServiceManager)
    ensures
        advice_after(outcome, manager) == RestartAdvice::Restarted <==> outcome
            == RestartOutcome::Restarted,
        advice_after(outcome, manager) == RestartAdvice::RestartByHand <==> outcome
            == RestartOutcome::NoService,
        outcome == RestartOutcome::Failed && manager == ServiceManager::Systemd ==> advice_after(
            outcome,
            manager,
        ) == RestartAdvice::ReadJournal,
        outcome == RestartOutcome::Failed && manager == ServiceManager::OpenRc ==> advice_after(
            outcome,
            manager,
        ) == RestartAdvice::ReadLog,
{
}

/// Setting up the service changes nothing that the user did not agree to, asks
/// nothing twice, and enables only what is in place.
pub proof fn service_steps_move_on(p: ServiceProgress, config_dir: Option<Seq<char>>)
    ensures
        ({
            let ask = service_ask(p, config_dir);
            match ask {
                ServiceAsk::LookFor(path) => p.installed is None && path == service_file(config_dir),
                ServiceAsk::AskState => p.installed == Some(true) && !p.state_asked,
                ServiceAsk::AskUser => p.installed is Some && (p.installed == Some(true)
                    ==> p.state_asked) && p.wanted is None,
                ServiceAsk::MakeDir(path) => p.wanted == Some(true) && p.dir_made is None && path
                    == service_dir(config_dir),
                ServiceAsk::FindSource => p.wanted == Some(true) && p.dir_made == Some(true)
                    && !p.source_searched,
                ServiceAsk::FindDaemon => p.wanted == Some(true) && p.dir_made == Some(true)
                    && p.source_searched && p.source is None && p.daemon_path is None && p.placed
                    is None,
                ServiceAsk::Copy(from, to) => p.wanted == Some(true) && p.dir_made == Some(true)
                    && p.source_searched && p.placed is None && opt_text(p.source) == Some(from) && to == service_file(
                    config_dir,
                ),
                ServiceAsk::Write(to, text) => p.wanted == Some(true) && p.dir_made == Some(true)
                    && p.source_searched && p.placed is None && p.source is None && p.daemon_path is Some && to
                    == service_file(config_dir) && has_text(text, p.daemon_path->0@),
                ServiceAsk::Reload => p.wanted == Some(true) && p.placed == Some(true)
                    && !p.reloaded,
                ServiceAsk::Enable => p.wanted == Some(true) && p.placed == Some(true) && p.reloaded && p.enabled is None,
                ServiceAsk::Done(_) => true,
            }
        }),
{
    if let Some(d) = p.daemon_path {
        let text = service_unit(d@);
        let head =
            "[Unit]\nDescription=whisrs dictation daemon\nAfter=graphical-session.target\n\n[Service]\nType=simple\nExecStart="@;
        let tail =
            "\nRestart=on-failure\nRestartSec=3\nPassEnvironment=HYPRLAND_INSTANCE_SIGNATURE NIRI_SOCKET SWAYSOCK WAYLAND_DISPLAY DISPLAY XDG_SESSION_TYPE XDG_CURRENT_DESKTOP XDG_RUNTIME_DIR\nStandardOutput=journal\nStandardError=journal\n\n[Install]\nWantedBy=default.target\n"@;
        starting_with_is_being_followed(tail, d@, head);
    }
}

/// What the setup of the service reports is what happened.
pub proof fn service_report_is_true(p: ServiceProgress, config_dir: Option<Seq<char>>)
    ensures
        match service_ask(p, config_dir) {
            ServiceAsk::Done(ServiceOutcome::AlreadyEnabled) => p.installed == Some(true) && (
            p.state matches Some(s) && trim(s@) == "enabled"@),
            ServiceAsk::Done(ServiceOutcome::Declined) => p.wanted == Some(false),
            ServiceAsk::Done(ServiceOutcome::NoDirectory) => p.wanted == Some(true) && p.dir_made
                == Some(false),
            ServiceAsk::Done(ServiceOutcome::NotPlaced) => p.wanted == Some(true) && p.dir_made
                == Some(true) && p.placed == Some(false),
            ServiceAsk::Done(ServiceOutcome::Installed(on)) => p.wanted == Some(true) && p.placed
                == Some(true) && p.reloaded && p.enabled == Some(on),
            _ => true,
        },
        p.installed == Some(true) && p.state_asked && (p.state matches Some(s) && trim(s@)
            == "enabled"@) ==> service_ask(p, config_dir) is Done,
{
}

/// A key binding is appended only to a configuration that was read and holds
/// none, and only where the user agreed; nothing is asked twice.
pub proof fn binding_steps_move_on(
    host: BindingHost,
    p: BindingProgress,
    config_dir: Option<Seq<char>>,
)
    ensures
        match binding_ask(host, p, config_dir) {
            BindingAsk::LookFor(path) => p.found is None && path == host.spec_config(config_dir),
            BindingAsk::Read(path) => p.found == Some(true) && !p.read && path == host.spec_config(
                config_dir,
            ),
            BindingAsk::FindProgram => p.found == Some(true) && p.read && !already_bound(
                opt_text(p.contents),
            ) && p.program is None,
            BindingAsk::AskUser => p.found == Some(true) && p.read && !already_bound(
                opt_text(p.contents),
            ) && p.program is Some && p.wanted is None,
            BindingAsk::Append(path, text) => p.found == Some(true) && p.read && p.wanted == Some(
                true,
            ) && p.appended is None && p.program is Some && path == host.spec_config(config_dir)
                && has_text(text, host.spec_line(p.program->0@)),
            BindingAsk::NotFound(line) => p.found == Some(false) && line == host.spec_line(
                "whisrs"@,
            ),
            BindingAsk::AlreadyBound => p.contents matches Some(s) && has_text(
                s@,
                "whisrs toggle"@,
            ),
            BindingAsk::Declined(line) => p.wanted == Some(false) && p.program is Some && line
                == host.spec_line(p.program->0@),
            BindingAsk::Added(done) => p.appended == Some(done) && p.wanted == Some(true),
        },
{
    if let Some(program) = p.program {
        let line = host.spec_line(program@);
        starting_with_is_being_followed(
            "\n"@,
            line,
            "\n# whisrs — voice-to-text dictation\n"@,
        );
    }
}

/// A binding that was added is found the next time: the configuration that it
/// was appended to is not changed again.
pub proof fn added_binding_is_found_again(
    host: BindingHost,
    contents: Seq<char>,
    dir: Seq<char>,
)
    ensures
        already_bound(Some(contents + binding_text(host, dir + "whisrs"@))),
{
    reveal_strlit("whisrs");
    reveal_strlit(" toggle");
    reveal_strlit("whisrs toggle");
    let program = dir + "whisrs"@;
    let text = binding_text(host, program);
    let line = host.spec_line(program);
    let head = match host {
        BindingHost::Hyprland => "bind = $mainMod, W, exec, "@,
        BindingHost::Sway => "bindsym $mod+w exec "@,
    };
    let key = "whisrs toggle"@;
    assert(key =~= "whisrs"@ + " toggle"@);
    assert(line =~= head + dir + key);
    let before = contents + "\n# whisrs — voice-to-text dictation\n"@ + head + dir;
    assert(contents + text =~= before + key + "\n"@);
    starting_with_is_being_followed("\n"@, key, before);
}

/// The line that is bound runs the program, and each compositor has its own
/// form and file for it.
pub proof fn bound_line_runs_the_program(host: BindingHost, program: Seq<char>)
    ensures
        has_text(host.spec_line(program), program + " toggle"@),
        host == BindingHost::Hyprland ==> starts_with(
            host.spec_line(program),
            "bind = $mainMod, W, exec, "@,
        ),
        host == BindingHost::Sway ==> starts_with(
            host.spec_line(program),
            "bindsym $mod+w exec "@,
        ),
        binding_host(Some("hyprland"@)) == Some(BindingHost::Hyprland),
        binding_host(Some("sway"@)) == Some(BindingHost::Sway),
        binding_host(None) is None,
{
    reveal_strlit("hyprland");
    reveal_strlit("sway");
    assert("hyprland"@.len() != "sway"@.len());
    let head = match host {
        BindingHost::Hyprland => "bind = $mainMod, W, exec, "@,
        BindingHost::Sway => "bindsym $mod+w exec "@,
    };
    let call = program + " toggle"@;
    let none = Seq::<char>::empty();
    assert(host.spec_line(program) =~= head + call + none);
    starting_with_is_being_followed(none, call, head);
    starting_with_is_being_followed(none, head, call);
    assert(host.spec_line(program) =~= head + call);
}

/// A desktop is told by the name that occurs in its description, the
/// compositors first; one of no known name is taken as it calls itself.
pub proof fn desktops_are_told_by_their_names(lower: Seq<char>)
    ensures
        has_text(lower, "hyprland"@) ==> desktop_compositor(lower) == "hyprland"@,
        has_text(lower, "sway"@) && !has_text(lower, "hyprland"@) ==> desktop_compositor(lower)
            == "sway"@,
        has_text(lower, "gnome"@) && !has_text(lower, "hyprland"@) && !has_text(lower, "sway"@)
            ==> desktop_compositor(lower) == "gnome"@,
        (has_text(lower, "kde"@) || has_text(lower, "plasma"@)) && !has_text(lower, "hyprland"@)
            && !has_text(lower, "sway"@) && !has_text(lower, "gnome"@) ==> desktop_compositor(lower)
            == "kde"@,
        has_text(lower, "i3"@) && !has_text(lower, "hyprland"@) && !has_text(lower, "sway"@)
            && !has_text(lower, "gnome"@) && !has_text(lower, "kde"@) && !has_text(
            lower,
            "plasma"@,
        ) ==> desktop_compositor(lower) == "i3"@,
        !has_text(lower, "hyprland"@) && !has_text(lower, "sway"@) && !has_text(lower, "gnome"@)
            && !has_text(lower, "kde"@) && !has_text(lower, "plasma"@) && !has_text(lower, "i3"@)
            ==> desktop_compositor(lower) == lower,
{
}

/// The extension is copied only where it is missing, was found and is wanted;
/// nothing is asked twice, and what is reported is what happened.
pub proof fn extension_steps_move_on(p: ExtensionProgress, data_dir: Option<Seq<char>>)
    ensures
        match extension_ask(p, data_dir) {
            ExtensionAsk::FindSource(_) => !p.source_searched,
            ExtensionAsk::LookFor(_) => p.installed is None,
            ExtensionAsk::AskUser => p.source_searched && p.installed == Some(false)
                && p.wanted is None,
            ExtensionAsk::MakeDir(_) => p.installed == Some(false) && p.wanted == Some(true) && p.source is Some
                && p.dir_made is None,
            ExtensionAsk::Copy(from, _) => p.installed == Some(false) && p.wanted == Some(true)
                && opt_text(p.source) == Some(from) && p.dir_made == Some(true) && p.copied is None,
            ExtensionAsk::Enable => p.installed == Some(false) && p.wanted == Some(true) && p.copied
                == Some(true) && p.enabled is None,
            ExtensionAsk::Done(ExtensionOutcome::AlreadyInstalled) => p.installed == Some(true),
            ExtensionAsk::Done(ExtensionOutcome::Declined) => p.wanted == Some(false),
            ExtensionAsk::Done(ExtensionOutcome::NoSource) => p.source_searched
                && p.source is None,
            ExtensionAsk::Done(ExtensionOutcome::NoDirectory) => p.wanted == Some(true) && p.dir_made
                == Some(false),
            ExtensionAsk::Done(ExtensionOutcome::NotCopied) => p.dir_made == Some(true) && p.copied
                == Some(false),
            ExtensionAsk::Done(ExtensionOutcome::Installed(on)) => p.wanted == Some(true) && p.copied
                == Some(true) && p.enabled == Some(on),
        },
        extension_ask(p, data_dir) matches ExtensionAsk::MakeDir(dir) ==> extension_ask(
            ExtensionProgress { dir_made: Some(true), copied: None, ..p },
            data_dir,
        ) == ExtensionAsk::Copy(p.source->0@, dir),
{
}

/// The device's permissions are repaired step by step, each once: the rule is
/// installed, then read and applied where that worked, and the user joins the
/// group in any case. What is reported is what happened.
pub proof fn repairs_move_on(p: UinputProgress, user: Option<Seq<char>>)
    ensures
        match uinput_ask(p, user) {
            UinputAsk::OpenDevice => p.access is None,
            UinputAsk::FindRule => p.access == Some(DeviceAccess::Denied) && !p.rule_searched,
            UinputAsk::AskFix => p.access == Some(DeviceAccess::Denied) && p.rule_searched
                && p.fix is None,
            UinputAsk::Run(Repair::InstallRule, args) => p.rule_installed is None && p.fix == Some(
                true,
            ) && args == install_rule_command(opt_text(p.rule_file)),
            UinputAsk::Run(Repair::ReloadRules, args) => p.rule_installed == Some(true)
                && !p.rules_reloaded && args == seq!["udevadm"@, "control"@, "--reload-rules"@],
            UinputAsk::Run(Repair::TriggerDevices, args) => p.rule_installed == Some(true)
                && p.rules_reloaded && !p.devices_triggered && args == seq![
                "udevadm"@,
                "trigger"@,
            ],
            UinputAsk::Run(Repair::JoinGroup, args) => p.rule_installed is Some && (p.rule_installed
                == Some(true) ==> p.rules_reloaded && p.devices_triggered) && p.group_joined is None && args.len() == 4 && args[0] == "usermod"@ && args[1]
                == "-aG"@ && args[2] == "input"@ && (user matches Some(u) ==> args[3] == u),
            UinputAsk::Done(UinputOutcome::Accessible) => p.access == Some(DeviceAccess::Opened),
            UinputAsk::Done(UinputOutcome::Unavailable) => p.access == Some(
                DeviceAccess::Unavailable,
            ),
            UinputAsk::Done(UinputOutcome::Declined) => p.fix == Some(false),
            UinputAsk::Done(UinputOutcome::Repaired(installed, joined)) => p.fix == Some(true)
                && p.rule_installed == Some(installed) && (installed ==> p.rules_reloaded
                && p.devices_triggered) && p.group_joined == Some(joined),
        },
        (p.access == Some(DeviceAccess::Denied) && p.rule_searched && p.fix == Some(true)
            && p.rule_installed == Some(false)) && p.group_joined is None ==> (uinput_ask(
            p,
            user,
        ) matches UinputAsk::Run(k, _) && k == Repair::JoinGroup),
{
}

/// The rule that was found is copied; without one it is written out.
pub proof fn rule_comes_from_the_installation(src: Seq<char>)
    ensures
        install_rule_command(Some(src)) == seq!["cp"@, src, "/etc/udev/rules.d/"@],
        install_rule_command(None).len() == 3,
        install_rule_command(None)[0] == "bash"@,
        has_text(
            install_rule_command(None)[2],
            crate::config::permissions::UDEV_RULE@,
        ),
{
    starting_with_is_being_followed(
        "' > /etc/udev/rules.d/99-whisrs.rules"@,
        crate::config::permissions::UDEV_RULE@,
        "echo '"@,
    );
}

/// The first place where a file is, is taken; none where it is nowhere.
pub proof fn first_place_is_taken(there: Seq<bool>, i: int)
    requires
        0 <= i,
    ensures
        match first_there(there, i) {
            Some(k) => i <= k < there.len() && there[k] && forall|j: int|
                i <= j < k ==> !(#[trigger] there[j]),
            None => forall|j: int| i <= j < there.len() ==> !(#[trigger] there[j]),
        },
    decreases there.len() - i,
{
    if i < there.len() && !there[i] {
        first_place_is_taken(there, i + 1);
    }
}

/// A file of the installation is looked for below every ancestor of the
/// program, nearest first, and then below the current directory.
pub proof fn every_ancestor_is_looked_in(ancestors: Seq<Seq<char>>, name: Seq<char>, i: int)
    requires
        0 <= i < ancestors.len(),
        ancestors[i].len() > 0,
        ancestors[i].last() != '/',
    ensures
        contrib_places(ancestors, name).len() == ancestors.len() + 1,
        contrib_places(ancestors, name)[i] == ancestors[i] + "/contrib/"@ + name,
        contrib_places(ancestors, name).last() == "contrib/"@ + name,
{
    reveal_strlit("contrib");
    reveal_strlit("/");
    reveal_strlit("/contrib/");
    reveal_strlit("contrib/");
    let sub = path_join(ancestors[i], "contrib"@);
    assert(sub.last() == 'b');
    assert(path_join(sub, name) =~= ancestors[i] + "/contrib/"@ + name);
    assert("contrib"@.last() == 'b');
    assert(path_join("contrib"@, name) =~= "contrib/"@ + name);
}

/// A program is run from where it was found, and otherwise from the place that
/// an installation of the user's own has.
pub proof fn programs_are_run_from_their_place(
    before: Seq<char>,
    path: Seq<char>,
    after: Seq<char>,
    home: Seq<char>,
    name: Seq<char>,
)
    requires
        all_white(before),
        all_white(after),
        path.len() > 0,
        !crate::text::is_white(path[0]),
        !crate::text::is_white(path.last()),
        home.len() > 0,
        home.last() != '/',
    ensures
        program_path(Some(before + path + after), Some(home), name) == path,
        program_path(None, Some(home), name) == home + "/.cargo/bin/"@ + name,
{
    trimming_gives_what_stands_between(before, path, after);
    reveal_strlit("/");
    reveal_strlit(".cargo/bin/");
    reveal_strlit("/.cargo/bin/");
    assert(program_path(None, Some(home), name) =~= home + "/.cargo/bin/"@ + name);
}

/// Choosing a backend takes over its new sections and name, and changes
/// nothing else.
pub proof fn new_sections_are_taken_over(
    config: Config,
    backend: String,
    sections: BackendConfigSelection,
)
    ensures
        ({
            let after = with_backend(config, backend, sections);
            &&& after.general.backend == backend
            &&& after.general == GeneralConfig { backend, ..config.general }
            &&& sections.groq is Some ==> after.groq == sections.groq
            &&& sections.deepgram is Some ==> after.deepgram == sections.deepgram
            &&& sections.openai is Some ==> after.openai == sections.openai
            &&& sections.local_whisper is Some ==> after.local_whisper == sections.local_whisper
            &&& sections.asr_sidecar is Some ==> after.asr_sidecar == sections.asr_sidecar
            &&& sections.openai_compatible_realtime is Some ==> after.openai_compatible_realtime
                == sections.openai_compatible_realtime
            &&& sections.groq is None ==> after.groq == config.groq
            &&& sections.deepgram is None ==> after.deepgram == config.deepgram
            &&& sections.openai is None ==> after.openai == config.openai
            &&& sections.local_whisper is None ==> after.local_whisper == config.local_whisper
            &&& sections.asr_sidecar is None ==> after.asr_sidecar == config.asr_sidecar
            &&& sections.openai_compatible_realtime is None ==> after.openai_compatible_realtime
                == config.openai_compatible_realtime
        }),
{
}

/// A volume that is a number ends up between 0 and 1, and stays what it is
/// where it lies there already; a negative one becomes 0, and a greater one 1.
pub proof fn volume_stays_between_silence_and_full(bits: u32)
    ensures
        bits <= 0x3f80_0000 ==> volume_in_range(bits) == bits,
        0x3f80_0000 < bits <= 0x7f80_0000 ==> volume_in_range(bits) == 0x3f80_0000,
        0x8000_0000 < bits <= 0xff80_0000 ==> volume_in_range(bits) == 0,
        bits == 0x8000_0000 ==> volume_in_range(bits) == bits,
        0x7f80_0000 < bits < 0x8000_0000 || bits > 0xff80_0000 ==> volume_in_range(bits) == bits,
{
}

/// A number that is typed is taken over, and what is no number changes
/// nothing.
pub proof fn typed_numbers_are_taken_over(n: u64, input: Seq<char>, before: u64)
    ensures
        number_or(decimal(n as nat), before) == n,
        is_number(decimal(n as nat)),
        !is_number(input) ==> number_or(input, before) == before,
        is_number(input) ==> unsigned_value(input) == Some(number_or(input, before) as nat),
{
    decimal_reads_back(n as nat);
}

/// A blank answer is none, and any other is taken as it was typed; of a hotkey
/// the white space round it goes.
pub proof fn blank_answers_are_none(input: Seq<char>)
    ensures
        nonblank(input) == (if all_white(input) {
            None::<Seq<char>>
        } else {
            Some(input)
        }),
        trimmed_hotkey(input) is None <==> all_white(input),
        trimmed_hotkey(input) matches Some(s) ==> s == trim(input),
{
    blank_is_white_space(input);
}

/// A line of a menu shows a text whole where it has at most 50 characters, and
/// otherwise its first 50 and an ellipsis.
pub proof fn menu_lines_are_short(s: Seq<char>, i: int)
    ensures
        menu_text(s).len() <= 51,
        s.len() <= 50 ==> menu_text(s) == s,
        s.len() > 50 ==> menu_text(s).len() == 51 && menu_text(s)[50] == '…',
        s.len() > 50 && 0 <= i < 50 ==> menu_text(s)[i] == s[i],
{
}

/// A command is offered by its name, with its hotkey.
pub proof fn commands_are_offered_by_name(c: LlmCommandConfig)
    ensures
        starts_with(command_label(c), c.name@),
        command_label(c) == c.name@ + (" ("@ + c.hotkey@ + ")"@),
{
    let rest = " ("@ + c.hotkey@ + ")"@;
    assert(command_label(c) =~= c.name@ + rest);
    starting_with_is_being_followed(rest, c.name@, rest);
}

/// Each file that the setup touches has its own place below the directory
/// that is given.
pub proof fn desktop_files_have_their_places(dir: Seq<char>)
    requires
        dir.len() > 0,
        dir.last() != '/',
    ensures
        service_dir(Some(dir)) == dir + "/systemd/user"@,
        service_file(Some(dir)) == dir + "/systemd/user/whisrs.service"@,
        BindingHost::Hyprland.spec_config(Some(dir)) == dir + "/hypr/hyprland.conf"@,
        BindingHost::Sway.spec_config(Some(dir)) == dir + "/sway/config"@,
        extensions_dir(Some(dir)) == dir + "/gnome-shell/extensions"@,
{
    reveal_strlit("/");
    reveal_strlit("systemd/user");
    reveal_strlit("/systemd/user");
    reveal_strlit("whisrs.service");
    reveal_strlit("/systemd/user/whisrs.service");
    reveal_strlit("hypr/hyprland.conf");
    reveal_strlit("/hypr/hyprland.conf");
    reveal_strlit("sway/config");
    reveal_strlit("/sway/config");
    reveal_strlit("gnome-shell/extensions");
    reveal_strlit("/gnome-shell/extensions");
    assert(service_dir(Some(dir)) =~= dir + "/systemd/user"@);
    assert(service_dir(Some(dir)).last() == 'r');
    assert(service_file(Some(dir)) =~= dir + "/systemd/user/whisrs.service"@);
    assert(BindingHost::Hyprland.spec_config(Some(dir)) =~= dir + "/hypr/hyprland.conf"@);
    assert(BindingHost::Sway.spec_config(Some(dir)) =~= dir + "/sway/config"@);
    assert(extensions_dir(Some(dir)) =~= dir + "/gnome-shell/extensions"@);
}

/// A session writes to the vocabulary file only where it has read one, and
/// remembers the two lists that it started from. Of the configuration it takes
/// over everything.
pub proof fn session_remembers_its_start(
    s: ConfigSession,
    c: Config,
    vocabulary: VocabularyRead,
)
    requires
        starts_from(s, c, vocabulary),
    ensures
        s.baseline.use_file <==> vocabulary is Terms,
        texts(s.baseline.config_toml@) == texts(c.general.vocabulary@),
        texts(s.baseline.merged@) == texts(s.config.general.vocabulary@),
        s.config == (Config {
            general: GeneralConfig { vocabulary: s.config.general.vocabulary, ..c.general },
            ..c
        }),
        !(vocabulary is Terms) ==> texts(s.config.general.vocabulary@) == texts(
            c.general.vocabulary@,
        ),
{
}

/// What is saved of the vocabulary is the list of the session, one term on
/// each line, and nothing where there is no file or nothing changed.
pub proof fn saved_vocabulary_is_the_list(s: ConfigSession)
    ensures
        ({
            let terms = texts(s.config.general.vocabulary@);
            &&& saved_vocabulary(s) is Some ==> s.baseline.use_file && saved_vocabulary(s) == Some(
                rendered(terms, terms.len()),
            )
            &&& !s.baseline.use_file ==> saved_vocabulary(s) is None
            &&& s.baseline.use_file && csv_entries(join(texts(s.baseline.merged@), ", "@))
                != csv_entries(join(terms, ", "@)) ==> saved_vocabulary(s) is Some
            &&& texts(s.baseline.merged@) == terms ==> saved_vocabulary(s) is None
        }),
{
}

} // verus!
