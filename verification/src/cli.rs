//! The command line: what each subcommand asks of the daemon, and what is
//! printed of the answer.

use crate::config::secrets::{in_style, styled, BOLD, DIM, GREEN, RED, YELLOW};
use crate::service::RestartOutcome;
use crate::text::texts;
use vstd::prelude::*;

verus! {

pub const CYAN: &'static str = "\x1b[36m";

/// What the daemon is doing.
#[derive(Debug, Clone, Copy, PartialEq, Eq, Structural)]
pub enum State {
    Idle,
    Recording,
    Transcribing,
    Synthesizing,
    Speaking,
}

impl State {
    /// The name of a state.
    pub open spec fn spec_name(self) -> Seq<char> {
        match self {
            State::Idle => "idle"@,
            State::Recording => "recording"@,
            State::Transcribing => "transcribing"@,
            State::Synthesizing => "synthesizing"@,
            State::Speaking => "speaking"@,
        }
    }

    /// The name of the state.
    pub fn name(self) -> (r: &'static str)
        ensures
            r@ == self.spec_name(),
    {
        match self {
            State::Idle => "idle",
            State::Recording => "recording",
            State::Transcribing => "transcribing",
            State::Synthesizing => "synthesizing",
            State::Speaking => "speaking",
        }
    }

    /// The color of the state, after bold type.
    pub open spec fn spec_color(self) -> Seq<char> {
        match self {
            State::Idle => ""@,
            State::Recording => GREEN@,
            State::Transcribing => YELLOW@,
            State::Synthesizing => CYAN@,
            State::Speaking => GREEN@,
        }
    }

    fn color(self) -> (r: &'static str)
        ensures
            r@ == self.spec_color(),
    {
        match self {
            State::Idle => "",
            State::Recording => GREEN,
            State::Transcribing => YELLOW,
            State::Synthesizing => CYAN,
            State::Speaking => GREEN,
        }
    }
}

/// A state as it is shown.
pub open spec fn shown_state(state: State, use_color: bool) -> Seq<char> {
    if use_color {
        in_style(BOLD@ + state.spec_color(), state.spec_name())
    } else {
        state.spec_name()
    }
}

/// Format a state for display with optional color.
pub fn format_state(state: State, use_color: bool) -> (r: String)
    ensures
        r@ == shown_state(state, use_color),
{
    if !use_color {
        return state.name().to_owned();
    }
    let mut style = BOLD.to_owned();
    style.push_str(state.color());
    styled(style.as_str(), state.name())
}

/// A subcommand with its arguments.
#[derive(Debug)]
pub enum Subcommand {
    Setup,
    Config,
    Toggle(Option<String>),
    Cancel,
    Status,
    /// The number of entries to show, and whether to clear the history
    /// instead.
    Log(usize, bool),
    Command,
    LlmCommand(String),
    LlmCommandSet(String),
    Speak,
    Restart,
}

/// A request to the daemon.
#[derive(Debug)]
pub enum Command {
    /// Start or stop dictation, in a language other than the configured one
    /// where one is given.
    Toggle(Option<String>),
    Cancel,
    Status,
    Log(usize),
    ClearHistory,
    CommandMode,
    LlmCommand(String),
    SetLlmInstruction(String),
    Speak,
}

/// What a subcommand does.
#[derive(Debug)]
pub enum Action {
    Setup,
    Config,
    /// Send a request to the daemon.
    Send(Command),
    Restart,
}

/// What a subcommand does.
pub fn dispatch(sub: Subcommand) -> (r: Action)
    ensures
        r == (match sub {
            Subcommand::Setup => Action::Setup,
            Subcommand::Config => Action::Config,
            Subcommand::Toggle(language) => Action::Send(Command::Toggle(language)),
            Subcommand::Cancel => Action::Send(Command::Cancel),
            Subcommand::Status => Action::Send(Command::Status),
            Subcommand::Log(limit, clear) => Action::Send(
                if clear {
                    Command::ClearHistory
                } else {
                    Command::Log(limit)
                },
            ),
            Subcommand::Command => Action::Send(Command::CommandMode),
            Subcommand::LlmCommand(name) => Action::Send(Command::LlmCommand(name)),
            Subcommand::LlmCommandSet(name) => Action::Send(Command::SetLlmInstruction(name)),
            Subcommand::Speak => Action::Send(Command::Speak),
            Subcommand::Restart => Action::Restart,
        }),
{
    match sub {
        Subcommand::Setup => Action::Setup,
        Subcommand::Config => Action::Config,
        Subcommand::Toggle(language) => Action::Send(Command::Toggle(language)),
        Subcommand::Cancel => Action::Send(Command::Cancel),
        Subcommand::Status => Action::Send(Command::Status),
        Subcommand::Log(limit, clear) => if clear {
            Action::Send(Command::ClearHistory)
        } else {
            Action::Send(Command::Log(limit))
        },
        Subcommand::Command => Action::Send(Command::CommandMode),
        Subcommand::LlmCommand(name) => Action::Send(Command::LlmCommand(name)),
        Subcommand::LlmCommandSet(name) => Action::Send(Command::SetLlmInstruction(name)),
        Subcommand::Speak => Action::Send(Command::Speak),
        Subcommand::Restart => Action::Restart,
    }
}

/// An entry of the transcription history, its time and duration as they are
/// shown.
#[derive(Debug, Clone)]
pub struct HistoryEntry {
    pub timestamp: String,
    pub backend: String,
    pub language: String,
    pub duration: String,
    pub text: String,
}

/// An answer of the daemon.
#[derive(Debug)]
pub enum Response {
    State(State),
    History(Vec<HistoryEntry>),
    Error(String),
}

/// What is printed, line by line, and how the program ends.
#[derive(Debug)]
pub struct Output {
    pub stdout: Vec<String>,
    pub stderr: Vec<String>,
    /// Whether the program ends with a failure.
    pub failed: bool,
}

impl Output {
    /// Whether just these lines go to the two streams.
    pub open spec fn prints(
        self,
        stdout: Seq<Seq<char>>,
        stderr: Seq<Seq<char>>,
        failed: bool,
    ) -> bool {
        texts(self.stdout@) == stdout && texts(self.stderr@) == stderr && self.failed == failed
    }
}

fn one_line(s: String) -> (r: Vec<String>)
    ensures
        texts(r@) == seq![s@],
{
    let mut v: Vec<String> = Vec::new();
    let ghost text = s@;
    v.push(s);
    assert(texts(v@) =~= seq![text]);
    v
}

fn no_lines() -> (r: Vec<String>)
    ensures
        texts(r@) == Seq::<Seq<char>>::empty(),
{
    let v: Vec<String> = Vec::new();
    assert(texts(v@) =~= seq![]);
    v
}

/// `text` in a color, where color is used.
pub open spec fn tinted(use_color: bool, style: Seq<char>, text: Seq<char>) -> Seq<char> {
    if use_color {
        in_style(style, text)
    } else {
        text
    }
}

fn tint(use_color: bool, style: &str, text: &str) -> (r: String)
    ensures
        r@ == tinted(use_color, style@, text@),
{
    if use_color {
        styled(style, text)
    } else {
        text.to_owned()
    }
}

/// What stands in brackets behind the time of an entry.
pub open spec fn entry_details(e: HistoryEntry) -> Seq<char> {
    "["@ + e.backend@ + " | "@ + e.language@ + " | "@ + e.duration@ + "]"@
}

/// The lines of an entry.
pub open spec fn entry_lines(e: HistoryEntry, use_color: bool) -> Seq<Seq<char>> {
    seq![
        tinted(use_color, DIM@, e.timestamp@) + "  "@ + tinted(use_color, DIM@, entry_details(e)),
        "  "@ + e.text@,
        ""@,
    ]
}

/// The lines of the first `n` entries.
pub open spec fn history_lines(entries: Seq<HistoryEntry>, use_color: bool, n: nat) -> Seq<
    Seq<char>,
>
    decreases n,
{
    if n == 0 {
        seq![]
    } else {
        history_lines(entries, use_color, (n - 1) as nat) + entry_lines(entries[n - 1], use_color)
    }
}

/// The lines that show the transcription history.
pub fn print_history(entries: &[HistoryEntry], use_color: bool) -> (r: Vec<String>)
    ensures
        texts(r@) == history_lines(entries@, use_color, entries@.len()),
{
    let mut r: Vec<String> = Vec::new();
    let mut i: usize = 0;
    assert(texts(r@) =~= seq![]);
    while i < entries.len()
        invariant
            i <= entries@.len(),
            texts(r@) == history_lines(entries@, use_color, i as nat),
        decreases entries@.len() - i,
    {
        let ghost before = texts(r@);
        let e = &entries[i];
        let mut details = "[".to_owned();
        details.push_str(e.backend.as_str());
        details.push_str(" | ");
        details.push_str(e.language.as_str());
        details.push_str(" | ");
        details.push_str(e.duration.as_str());
        details.push_str("]");
        let mut head = tint(use_color, DIM, e.timestamp.as_str());
        head.push_str("  ");
        head.push_str(tint(use_color, DIM, details.as_str()).as_str());
        let mut body = "  ".to_owned();
        body.push_str(e.text.as_str());
        let ghost lines = seq![head@, body@, ""@];
        r.push(head);
        r.push(body);
        r.push("".to_owned());
        assert(lines == entry_lines(entries@[i as int], use_color));
        assert(texts(r@) =~= before + lines);
        i += 1;
    }
    r
}

/// What is printed of an answer: the state or the history on the output, an
/// error on the error output, and then the program fails.
pub fn show_response(response: &Response, use_color: bool) -> (r: Output)
    ensures
        match *response {
            Response::State(state) => r.prints(seq![shown_state(state, use_color)], seq![], false),
            Response::History(entries) => r.prints(
                if entries@.len() == 0 {
                    seq!["No transcription history."@]
                } else {
                    history_lines(entries@, use_color, entries@.len())
                },
                seq![],
                false,
            ),
            Response::Error(message) => r.prints(
                seq![],
                seq![tinted(use_color, RED@, "error:"@) + " "@ + message@],
                true,
            ),
        },
{
    match response {
        Response::State(state) => Output {
            stdout: one_line(format_state(*state, use_color)),
            stderr: no_lines(),
            failed: false,
        },
        Response::History(entries) => {
            let stdout = if entries.len() == 0 {
                one_line("No transcription history.".to_owned())
            } else {
                print_history(entries, use_color)
            };
            Output { stdout, stderr: no_lines(), failed: false }
        },
        Response::Error(message) => {
            let mut line = tint(use_color, RED, "error:");
            line.push_str(" ");
            line.push_str(message.as_str());
            Output { stdout: no_lines(), stderr: one_line(line), failed: true }
        },
    }
}

/// How to start the daemon.
pub const START_HELP: &'static str = " Start it with:\n\n  whisrsd &\n\nOr enable the systemd service:\n\n  systemctl --user enable --now whisrs.service";

/// What is printed where no daemon answers.
pub fn not_running(use_color: bool) -> (r: Output)
    ensures
        r.prints(
            seq![],
            seq![tinted(use_color, RED@, "whisrsd is not running."@) + START_HELP@],
            true,
        ),
{
    let mut line = tint(use_color, RED, "whisrsd is not running.");
    line.push_str(START_HELP);
    Output { stdout: no_lines(), stderr: one_line(line), failed: true }
}

/// How to restart a daemon that is no service.
pub const RESTART_HELP: &'static str = "\n\nInstall the systemd unit (run `whisrs setup` and accept the systemd step),\nor restart the daemon manually:\n\n  pkill whisrsd; sleep 0.2; whisrsd &";

/// What is printed before the daemon is restarted.
pub fn restart_announcement(use_color: bool) -> (r: String)
    ensures
        r@ == tinted(use_color, BOLD@, "Restarting whisrs daemon (systemd)…"@),
{
    tint(use_color, BOLD, "Restarting whisrs daemon (systemd)…")
}

/// What is printed after the daemon was to be restarted. Anything but a
/// restart is a failure.
pub fn cmd_restart(outcome: RestartOutcome, use_color: bool) -> (r: Output)
    ensures
        match outcome {
            RestartOutcome::Restarted => r.prints(
                seq![tinted(use_color, GREEN@, "Daemon restarted."@)],
                seq![],
                false,
            ),
            RestartOutcome::Failed => r.prints(
                seq![],
                seq![
                    tinted(use_color, RED@, "systemctl --user restart whisrs.service failed."@),
                ],
                true,
            ),
            RestartOutcome::NoService => r.prints(
                seq![],
                seq![
                    tinted(use_color, YELLOW@, "No whisrs systemd user unit detected."@)
                        + RESTART_HELP@,
                ],
                true,
            ),
        },
{
    match outcome {
        RestartOutcome::Restarted => Output {
            stdout: one_line(tint(use_color, GREEN, "Daemon restarted.")),
            stderr: no_lines(),
            failed: false,
        },
        RestartOutcome::Failed => Output {
            stdout: no_lines(),
            stderr: one_line(
                tint(use_color, RED, "systemctl --user restart whisrs.service failed."),
            ),
            failed: true,
        },
        RestartOutcome::NoService => {
            let mut line = tint(use_color, YELLOW, "No whisrs systemd user unit detected.");
            line.push_str(RESTART_HELP);
            Output { stdout: no_lines(), stderr: one_line(line), failed: true }
        },
    }
}

/// The history shows every entry once, in order, on three lines: its head, its
/// text and an empty line.
pub proof fn history_shows_every_entry(
    entries: Seq<HistoryEntry>,
    use_color: bool,
    n: nat,
    i: int,
)
    requires
        n <= entries.len(),
        0 <= i < n,
    ensures
        history_lines(entries, use_color, n).len() == 3 * n,
        history_lines(entries, use_color, n)[3 * i + 1] == "  "@ + entries[i].text@,
        history_lines(entries, use_color, n)[3 * i + 2] == ""@,
        !use_color ==> history_lines(entries, use_color, n)[3 * i] == entries[i].timestamp@ + "  "@
            + ("["@ + entries[i].backend@ + " | "@ + entries[i].language@ + " | "@
            + entries[i].duration@ + "]"@),
        use_color ==> history_lines(entries, use_color, n)[3 * i] == "\x1b[2m"@
            + entries[i].timestamp@ + "\x1b[0m"@ + "  "@ + ("\x1b[2m"@ + ("["@
            + entries[i].backend@ + " | "@ + entries[i].language@ + " | "@ + entries[i].duration@
            + "]"@) + "\x1b[0m"@),
    decreases n,
{
    let before = history_lines(entries, use_color, (n - 1) as nat);
    history_length(entries, use_color, (n - 1) as nat);
    if i < n - 1 {
        history_shows_every_entry(entries, use_color, (n - 1) as nat, i);
        let now = history_lines(entries, use_color, n);
        assert(now[3 * i] == before[3 * i]);
        assert(now[3 * i + 1] == before[3 * i + 1]);
        assert(now[3 * i + 2] == before[3 * i + 2]);
    }
}

proof fn history_length(entries: Seq<HistoryEntry>, use_color: bool, n: nat)
    ensures
        history_lines(entries, use_color, n).len() == 3 * n,
    decreases n,
{
    if n > 0 {
        history_length(entries, use_color, (n - 1) as nat);
    }
}

/// Color only frames what is shown: between the style and its end stands the
/// very text that is shown without color.
pub proof fn color_only_frames(state: State, style: Seq<char>, text: Seq<char>)
    ensures
        tinted(false, style, text) == text,
        tinted(true, style, text) == style + text + "\x1b[0m"@,
        shown_state(state, true) == "\x1b[1m"@ + state.spec_color() + shown_state(state, false)
            + "\x1b[0m"@,
{
}

/// Different states have different names.
pub proof fn states_have_their_own_names(a: State, b: State)
    ensures
        shown_state(a, false) == shown_state(b, false) ==> a == b,
{
    reveal_strlit("idle");
    reveal_strlit("recording");
    reveal_strlit("transcribing");
    reveal_strlit("synthesizing");
    reveal_strlit("speaking");
    let x = shown_state(a, false);
    let y = shown_state(b, false);
    if x == y {
        assert(x[0] == y[0]);
        assert(x[1] == y[1]);
    }
}

/// A state that waits for the user has no color; one that listens or speaks is
/// green, and one that works yellow or cyan.
pub proof fn states_have_their_colors(state: State)
    ensures
        state.spec_color() == (match state {
            State::Idle => Seq::<char>::empty(),
            State::Recording | State::Speaking => "\x1b[32m"@,
            State::Transcribing => "\x1b[33m"@,
            State::Synthesizing => "\x1b[36m"@,
        }),
{
    reveal_strlit("");
    assert(""@ =~= Seq::<char>::empty());
}

} // verus!
