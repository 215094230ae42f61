use whisrs::cli::{
    cmd_restart, dispatch, format_state, not_running, print_history, restart_announcement,
    show_response, Action, Command, HistoryEntry, Response, State, Subcommand,
};
use whisrs::service::RestartOutcome;

#[test]
fn states_are_shown_with_and_without_color() {
    assert_eq!(format_state(State::Recording, false), "recording");
    assert_eq!(format_state(State::Idle, true), "\x1b[1midle\x1b[0m");
    assert_eq!(
        format_state(State::Recording, true),
        "\x1b[1m\x1b[32mrecording\x1b[0m"
    );
    assert_eq!(
        format_state(State::Transcribing, true),
        "\x1b[1m\x1b[33mtranscribing\x1b[0m"
    );
    assert_eq!(
        format_state(State::Synthesizing, true),
        "\x1b[1m\x1b[36msynthesizing\x1b[0m"
    );
    assert_eq!(
        format_state(State::Speaking, true),
        "\x1b[1m\x1b[32mspeaking\x1b[0m"
    );
}

#[test]
fn subcommands_become_requests() {
    assert!(matches!(dispatch(Subcommand::Setup), Action::Setup));
    assert!(matches!(dispatch(Subcommand::Restart), Action::Restart));
    assert!(matches!(
        dispatch(Subcommand::Toggle(Some("pl".to_string()))),
        Action::Send(Command::Toggle(Some(l))) if l == "pl"
    ));
    assert!(matches!(
        dispatch(Subcommand::Log(20, false)),
        Action::Send(Command::Log(20))
    ));
    assert!(matches!(
        dispatch(Subcommand::Log(20, true)),
        Action::Send(Command::ClearHistory)
    ));
    assert!(matches!(
        dispatch(Subcommand::LlmCommandSet("x".to_string())),
        Action::Send(Command::SetLlmInstruction(n)) if n == "x"
    ));
}

fn entry() -> HistoryEntry {
    HistoryEntry {
        timestamp: "2026-01-02 03:04:05".to_string(),
        backend: "groq".to_string(),
        language: "en".to_string(),
        duration: "1.5s".to_string(),
        text: "hello".to_string(),
    }
}

#[test]
fn the_history_is_printed_entry_by_entry() {
    assert_eq!(
        print_history(&[entry()], false),
        ["2026-01-02 03:04:05  [groq | en | 1.5s]", "  hello", ""]
    );
    assert_eq!(
        print_history(&[entry()], true)[0],
        "\x1b[2m2026-01-02 03:04:05\x1b[0m  \x1b[2m[groq | en | 1.5s]\x1b[0m"
    );
    assert_eq!(print_history(&[entry(), entry()], false).len(), 6);
}

#[test]
fn answers_go_to_the_right_stream() {
    let out = show_response(&Response::State(State::Idle), false);
    assert_eq!((out.stdout, out.stderr, out.failed), (vec!["idle".to_string()], vec![], false));
    let out = show_response(&Response::History(Vec::new()), false);
    assert_eq!(out.stdout, ["No transcription history."]);
    let out = show_response(&Response::History(vec![entry()]), false);
    assert_eq!(out.stdout.len(), 3);
    let out = show_response(&Response::Error("busy".to_string()), true);
    assert!(out.failed && out.stdout.is_empty());
    assert_eq!(out.stderr, ["\x1b[31merror:\x1b[0m busy"]);
    let out = show_response(&Response::Error("busy".to_string()), false);
    assert_eq!(out.stderr, ["error: busy"]);
}

#[test]
fn a_daemon_that_is_not_there_is_explained() {
    let out = not_running(false);
    assert!(out.failed);
    assert_eq!(
        out.stderr,
        ["whisrsd is not running. Start it with:\n\n  whisrsd &\n\n\
          Or enable the systemd service:\n\n  systemctl --user enable --now whisrs.service"]
    );
    assert!(not_running(true).stderr[0].starts_with("\x1b[31mwhisrsd is not running.\x1b[0m Start"));
}

#[test]
fn only_a_restart_succeeds() {
    let out = cmd_restart(RestartOutcome::Restarted, false);
    assert_eq!((out.stdout.as_slice(), out.failed), (&["Daemon restarted.".to_string()][..], false));
    let out = cmd_restart(RestartOutcome::Failed, true);
    assert!(out.failed);
    assert_eq!(
        out.stderr,
        ["\x1b[31msystemctl --user restart whisrs.service failed.\x1b[0m"]
    );
    let out = cmd_restart(RestartOutcome::NoService, false);
    assert!(out.failed);
    assert!(out.stderr[0].starts_with("No whisrs systemd user unit detected.\n\nInstall the"));
    assert!(out.stderr[0].ends_with("\n\n  pkill whisrsd; sleep 0.2; whisrsd &"));
    assert_eq!(restart_announcement(false), "Restarting whisrs daemon (systemd)…");
}
