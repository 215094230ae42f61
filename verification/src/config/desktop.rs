//! Fitting the daemon into the user's desktop: the service that starts it, the
//! key that toggles it, and the GNOME Shell extension that shows its overlay.

use crate::config::types::{join_path, path_join};
use crate::text::{has_text, lowercase, opt_text, same_text, text_contains, trim, trimmed};
use vstd::prelude::*;

verus! {

/// The user's configuration directory.
pub open spec fn config_home(config_dir: Option<Seq<char>>) -> Seq<char> {
    match config_dir {
        Some(d) => d,
        None => "~/.config"@,
    }
}

fn config_home_of(config_dir: &Option<String>) -> (r: String)
    ensures
        r@ == config_home(opt_text(*config_dir)),
{
    match config_dir {
        Some(d) => d.clone(),
        None => "~/.config".to_owned(),
    }
}

/// The directory of the user's services.
pub open spec fn service_dir(config_dir: Option<Seq<char>>) -> Seq<char> {
    path_join(config_home(config_dir), "systemd/user"@)
}

/// The file of the service.
pub open spec fn service_file(config_dir: Option<Seq<char>>) -> Seq<char> {
    path_join(service_dir(config_dir), "whisrs.service"@)
}

/// The text of the service file for a daemon at `daemon_path`.
pub open spec fn service_unit(daemon_path: Seq<char>) -> Seq<char> {
    "[Unit]\nDescription=whisrs dictation daemon\nAfter=graphical-session.target\n\n[Service]\nType=simple\nExecStart="@
        + daemon_path
        + "\nRestart=on-failure\nRestartSec=3\nPassEnvironment=HYPRLAND_INSTANCE_SIGNATURE NIRI_SOCKET SWAYSOCK WAYLAND_DISPLAY DISPLAY XDG_SESSION_TYPE XDG_CURRENT_DESKTOP XDG_RUNTIME_DIR\nStandardOutput=journal\nStandardError=journal\n\n[Install]\nWantedBy=default.target\n"@
}

fn service_text(daemon_path: &str) -> (r: String)
    ensures
        r@ == service_unit(daemon_path@),
{
    let mut r = "[Unit]\nDescription=whisrs dictation daemon\nAfter=graphical-session.target\n\n[Service]\nType=simple\nExecStart=".to_owned();
    r.push_str(daemon_path);
    r.push_str(
        "\nRestart=on-failure\nRestartSec=3\nPassEnvironment=HYPRLAND_INSTANCE_SIGNATURE NIRI_SOCKET SWAYSOCK WAYLAND_DISPLAY DISPLAY XDG_SESSION_TYPE XDG_CURRENT_DESKTOP XDG_RUNTIME_DIR\nStandardOutput=journal\nStandardError=journal\n\n[Install]\nWantedBy=default.target\n",
    );
    r
}

/// What is known so far of the service. A field is `None`, or false, until its
/// step was made.
#[derive(Debug, Clone)]
pub struct ServiceProgress {
    /// Whether the service file is there.
    pub installed: Option<bool>,
    /// Whether the service manager was asked about the service.
    pub state_asked: bool,
    /// What the service manager printed.
    pub state: Option<String>,
    /// Whether the user wants the service.
    pub wanted: Option<bool>,
    /// Whether the directory could be made.
    pub dir_made: Option<bool>,
    /// Whether the service file of the installation was looked for.
    pub source_searched: bool,
    /// Where it was found.
    pub source: Option<String>,
    /// The path to the daemon, where it is to be written into the file.
    pub daemon_path: Option<String>,
    /// Whether the file could be copied or written.
    pub placed: Option<bool>,
    pub reloaded: bool,
    /// Whether the service could be enabled.
    pub enabled: Option<bool>,
}

impl ServiceProgress {
    /// Nothing done yet.
    pub fn new() -> (r: Self)
        ensures
            r == (ServiceProgress {
                installed: None,
                state_asked: false,
                state: None,
                wanted: None,
                dir_made: None,
                source_searched: false,
                source: None,
                daemon_path: None,
                placed: None,
                reloaded: false,
                enabled: None,
            }),
    {
        ServiceProgress {
            installed: None,
            state_asked: false,
            state: None,
            wanted: None,
            dir_made: None,
            source_searched: false,
            source: None,
            daemon_path: None,
            placed: None,
            reloaded: false,
            enabled: None,
        }
    }
}

/// How the setup of the service ended.
#[derive(Debug, Clone, Copy, PartialEq, Eq, Structural)]
pub enum ServiceOutcome {
    AlreadyEnabled,
    Declined,
    /// The directory could not be made.
    NoDirectory,
    /// The file could not be copied or written.
    NotPlaced,
    /// The file is in place; whether it could be enabled.
    Installed(bool),
}

/// What to do next about the service.
#[derive(Debug)]
pub enum ServiceStep {
    /// Look whether the file is there.
    LookFor(String),
    /// Ask the service manager whether the service is enabled.
    AskState,
    /// Ask the user whether the daemon is to start by itself.
    AskUser,
    MakeDir(String),
    /// Look for the service file of the installation.
    FindSource,
    /// Find the path to the daemon.
    FindDaemon,
    /// Copy the file at the first path to the second.
    Copy(String, String),
    /// Write the text to the path: path and text.
    Write(String, String),
    /// Have the service manager read its files again.
    Reload,
    /// Enable the service and start it.
    Enable,
    Done(ServiceOutcome),
}

/// A step with what it works on.
pub enum ServiceAsk {
    LookFor(Seq<char>),
    AskState,
    AskUser,
    MakeDir(Seq<char>),
    FindSource,
    FindDaemon,
    Copy(Seq<char>, Seq<char>),
    Write(Seq<char>, Seq<char>),
    Reload,
    Enable,
    Done(ServiceOutcome),
}

impl ServiceStep {
    /// What a step asks for.
    pub open spec fn ask(self) -> ServiceAsk {
        match self {
            ServiceStep::LookFor(s) => ServiceAsk::LookFor(s@),
            ServiceStep::AskState => ServiceAsk::AskState,
            ServiceStep::AskUser => ServiceAsk::AskUser,
            ServiceStep::MakeDir(s) => ServiceAsk::MakeDir(s@),
            ServiceStep::FindSource => ServiceAsk::FindSource,
            ServiceStep::FindDaemon => ServiceAsk::FindDaemon,
            ServiceStep::Copy(a, b) => ServiceAsk::Copy(a@, b@),
            ServiceStep::Write(a, b) => ServiceAsk::Write(a@, b@),
            ServiceStep::Reload => ServiceAsk::Reload,
            ServiceStep::Enable => ServiceAsk::Enable,
            ServiceStep::Done(o) => ServiceAsk::Done(o),
        }
    }
}

/// Whether the service manager said that the service is enabled.
pub open spec fn says_enabled(state: Option<Seq<char>>) -> bool {
    match state {
        Some(s) => trim(s) == "enabled"@,
        None => false,
    }
}

/// The next step about the service, after what is known so far.
pub open spec fn service_ask(p: ServiceProgress, config_dir: Option<Seq<char>>) -> ServiceAsk {
    let dest = service_file(config_dir);
    if p.installed is None {
        ServiceAsk::LookFor(dest)
    } else if p.installed == Some(true) && !p.state_asked {
        ServiceAsk::AskState
    } else if p.installed == Some(true) && says_enabled(opt_text(p.state)) {
        ServiceAsk::Done(ServiceOutcome::AlreadyEnabled)
    } else {
        match p.wanted {
            None => ServiceAsk::AskUser,
            Some(false) => ServiceAsk::Done(ServiceOutcome::Declined),
            Some(true) => match p.dir_made {
                None => ServiceAsk::MakeDir(service_dir(config_dir)),
                Some(false) => ServiceAsk::Done(ServiceOutcome::NoDirectory),
                Some(true) => if !p.source_searched {
                    ServiceAsk::FindSource
                } else {
                    match p.placed {
                        None => match p.source {
                            Some(src) => ServiceAsk::Copy(src@, dest),
                            None => match p.daemon_path {
                                None => ServiceAsk::FindDaemon,
                                Some(d) => ServiceAsk::Write(dest, service_unit(d@)),
                            },
                        },
                        Some(false) => ServiceAsk::Done(ServiceOutcome::NotPlaced),
                        Some(true) => if !p.reloaded {
                            ServiceAsk::Reload
                        } else {
                            match p.enabled {
                                None => ServiceAsk::Enable,
                                Some(on) => ServiceAsk::Done(ServiceOutcome::Installed(on)),
                            }
                        },
                    }
                },
            },
        }
    }
}

/// Offer to install and enable the user's service: the next step, after what
/// is known so far.
pub fn setup_systemd_service(p: &ServiceProgress, config_dir: &Option<String>) -> (r: ServiceStep)
    ensures
        r.ask() == service_ask(*p, opt_text(*config_dir)),
{
    let dir = join_path(config_home_of(config_dir).as_str(), "systemd/user");
    let dest = join_path(dir.as_str(), "whisrs.service");
    match p.installed {
        None => {
            return ServiceStep::LookFor(dest);
        },
        Some(installed) => {
            if installed {
                if !p.state_asked {
                    return ServiceStep::AskState;
                }
                if let Some(s) = &p.state {
                    if same_text(trimmed(s.as_str()).as_str(), "enabled") {
                        return ServiceStep::Done(ServiceOutcome::AlreadyEnabled);
                    }
                }
            }
        },
    }
    match p.wanted {
        None => {
            return ServiceStep::AskUser;
        },
        Some(wanted) => {
            if !wanted {
                return ServiceStep::Done(ServiceOutcome::Declined);
            }
        },
    }
    match p.dir_made {
        None => {
            return ServiceStep::MakeDir(dir);
        },
        Some(made) => {
            if !made {
                return ServiceStep::Done(ServiceOutcome::NoDirectory);
            }
        },
    }
    if !p.source_searched {
        return ServiceStep::FindSource;
    }
    match p.placed {
        None => {
            match &p.source {
                Some(src) => {
                    return ServiceStep::Copy(src.clone(), dest);
                },
                None => {
                    match &p.daemon_path {
                        None => {
                            return ServiceStep::FindDaemon;
                        },
                        Some(d) => {
                            return ServiceStep::Write(dest, service_text(d.as_str()));
                        },
                    }
                },
            }
        },
        Some(placed) => {
            if !placed {
                return ServiceStep::Done(ServiceOutcome::NotPlaced);
            }
        },
    }
    if !p.reloaded {
        return ServiceStep::Reload;
    }
    match p.enabled {
        None => ServiceStep::Enable,
        Some(on) => ServiceStep::Done(ServiceOutcome::Installed(on)),
    }
}

/// The compositor that the lower-case name of a desktop tells of.
pub open spec fn desktop_compositor(lower: Seq<char>) -> Seq<char> {
    if has_text(lower, "hyprland"@) {
        "hyprland"@
    } else if has_text(lower, "sway"@) {
        "sway"@
    } else if has_text(lower, "gnome"@) {
        "gnome"@
    } else if has_text(lower, "kde"@) || has_text(lower, "plasma"@) {
        "kde"@
    } else if has_text(lower, "i3"@) {
        "i3"@
    } else {
        lower
    }
}

/// The compositor that the lower-case name of a desktop tells of; a name that
/// is not known stands for itself.
pub fn compositor_of_desktop(lower: String) -> (r: String)
    ensures
        r@ == desktop_compositor(lower@),
{
    let s = lower.as_str();
    if text_contains(s, "hyprland") {
        "hyprland".to_owned()
    } else if text_contains(s, "sway") {
        "sway".to_owned()
    } else if text_contains(s, "gnome") {
        "gnome".to_owned()
    } else if text_contains(s, "kde") || text_contains(s, "plasma") {
        "kde".to_owned()
    } else if text_contains(s, "i3") {
        "i3".to_owned()
    } else {
        lower
    }
}

/// Detect which compositor is running, given whether Hyprland's and Sway's
/// variables are set and what the desktop calls itself.
pub fn detect_compositor(hyprland: bool, sway: bool, desktop: &Option<String>) -> (r: Option<String>)
    ensures
        opt_text(r) == (if hyprland {
            Some("hyprland"@)
        } else if sway {
            Some("sway"@)
        } else {
            match *desktop {
                Some(d) => Some(desktop_compositor(lowercase(d@))),
                None => None,
            }
        }),
{
    if hyprland {
        return Some("hyprland".to_owned());
    }
    if sway {
        return Some("sway".to_owned());
    }
    match desktop {
        Some(d) => Some(compositor_of_desktop(d.as_str().to_lowercase())),
        None => None,
    }
}

/// A compositor whose configuration can take the key binding.
#[derive(Debug, Clone, Copy, PartialEq, Eq, Structural)]
pub enum BindingHost {
    Hyprland,
    Sway,
}

/// The compositor whose configuration takes the key binding, where it is one.
pub open spec fn binding_host(compositor: Option<Seq<char>>) -> Option<BindingHost> {
    if compositor == Some("hyprland"@) {
        Some(BindingHost::Hyprland)
    } else if compositor == Some("sway"@) {
        Some(BindingHost::Sway)
    } else {
        None
    }
}

/// The compositor whose configuration takes the key binding, where it is one.
/// For any other the user adds the binding.
pub fn keybinding_host(compositor: &Option<String>) -> (r: Option<BindingHost>)
    ensures
        r == binding_host(opt_text(*compositor)),
{
    match compositor {
        None => None,
        Some(c) => if same_text(c.as_str(), "hyprland") {
            Some(BindingHost::Hyprland)
        } else if same_text(c.as_str(), "sway") {
            Some(BindingHost::Sway)
        } else {
            None
        },
    }
}

impl BindingHost {
    /// The compositor's configuration file.
    pub open spec fn spec_config(self, config_dir: Option<Seq<char>>) -> Seq<char> {
        match self {
            BindingHost::Hyprland => path_join(config_home(config_dir), "hypr/hyprland.conf"@),
            BindingHost::Sway => path_join(config_home(config_dir), "sway/config"@),
        }
    }

    /// The compositor's configuration file.
    pub fn config(self, config_dir: &Option<String>) -> (r: String)
        ensures
            r@ == self.spec_config(opt_text(*config_dir)),
    {
        let home = config_home_of(config_dir);
        match self {
            BindingHost::Hyprland => join_path(home.as_str(), "hypr/hyprland.conf"),
            BindingHost::Sway => join_path(home.as_str(), "sway/config"),
        }
    }

    /// The line that binds the key to a program.
    pub open spec fn spec_line(self, program: Seq<char>) -> Seq<char> {
        match self {
            BindingHost::Hyprland => "bind = $mainMod, W, exec, "@ + program + " toggle"@,
            BindingHost::Sway => "bindsym $mod+w exec "@ + program + " toggle"@,
        }
    }

    /// The line that binds the key to a program.
    pub fn line(self, program: &str) -> (r: String)
        ensures
            r@ == self.spec_line(program@),
    {
        let mut r = match self {
            BindingHost::Hyprland => "bind = $mainMod, W, exec, ".to_owned(),
            BindingHost::Sway => "bindsym $mod+w exec ".to_owned(),
        };
        r.push_str(program);
        r.push_str(" toggle");
        r
    }
}

/// What is appended to the compositor's configuration.
pub open spec fn binding_text(host: BindingHost, program: Seq<char>) -> Seq<char> {
    "\n# whisrs — voice-to-text dictation\n"@ + host.spec_line(program) + "\n"@
}

fn appended_text(host: BindingHost, program: &str) -> (r: String)
    ensures
        r@ == binding_text(host, program@),
{
    let mut r = "\n# whisrs — voice-to-text dictation\n".to_owned();
    r.push_str(host.line(program).as_str());
    r.push_str("\n");
    r
}

/// What is known so far of the key binding. A field is `None`, or false, until
/// its step was made.
#[derive(Debug, Clone)]
pub struct BindingProgress {
    /// Whether the compositor's configuration is there.
    pub found: Option<bool>,
    /// Whether it was read.
    pub read: bool,
    /// What it holds, where it could be read.
    pub contents: Option<String>,
    /// The path to the program.
    pub program: Option<String>,
    /// Whether the user wants the binding added.
    pub wanted: Option<bool>,
    /// Whether it could be appended.
    pub appended: Option<bool>,
}

impl BindingProgress {
    /// Nothing done yet.
    pub fn new() -> (r: Self)
        ensures
            r == (BindingProgress {
                found: None,
                read: false,
                contents: None,
                program: None,
                wanted: None,
                appended: None,
            }),
    {
        BindingProgress {
            found: None,
            read: false,
            contents: None,
            program: None,
            wanted: None,
            appended: None,
        }
    }
}

/// How the setup of the key binding ended.
#[derive(Debug)]
pub enum BindingOutcome {
    /// There is no configuration; the line is for the user to add.
    NotFound(String),
    AlreadyBound,
    /// The user adds the line.
    Declined(String),
    /// The binding was to be appended; whether it was.
    Added(bool),
}

/// What to do next about the key binding.
#[derive(Debug)]
pub enum BindingStep {
    /// Look whether the configuration is there.
    LookFor(String),
    /// Read it.
    Read(String),
    /// Find the path to the program.
    FindProgram,
    /// Ask the user whether to add the binding.
    AskUser,
    /// Append the text to the file: path and text.
    Append(String, String),
    Done(BindingOutcome),
}

/// A step with what it works on.
pub enum BindingAsk {
    LookFor(Seq<char>),
    Read(Seq<char>),
    FindProgram,
    AskUser,
    Append(Seq<char>, Seq<char>),
    NotFound(Seq<char>),
    AlreadyBound,
    Declined(Seq<char>),
    Added(bool),
}

impl BindingStep {
    /// What a step asks for.
    pub open spec fn ask(self) -> BindingAsk {
        match self {
            BindingStep::LookFor(s) => BindingAsk::LookFor(s@),
            BindingStep::Read(s) => BindingAsk::Read(s@),
            BindingStep::FindProgram => BindingAsk::FindProgram,
            BindingStep::AskUser => BindingAsk::AskUser,
            BindingStep::Append(a, b) => BindingAsk::Append(a@, b@),
            BindingStep::Done(BindingOutcome::NotFound(s)) => BindingAsk::NotFound(s@),
            BindingStep::Done(BindingOutcome::AlreadyBound) => BindingAsk::AlreadyBound,
            BindingStep::Done(BindingOutcome::Declined(s)) => BindingAsk::Declined(s@),
            BindingStep::Done(BindingOutcome::Added(b)) => BindingAsk::Added(b),
        }
    }
}

/// Whether a configuration binds the program already.
pub open spec fn already_bound(contents: Option<Seq<char>>) -> bool {
    match contents {
        Some(s) => has_text(s, "whisrs toggle"@),
        None => false,
    }
}

/// The next step about the key binding, after what is known so far.
pub open spec fn binding_ask(
    host: BindingHost,
    p: BindingProgress,
    config_dir: Option<Seq<char>>,
) -> BindingAsk {
    let conf = host.spec_config(config_dir);
    match p.found {
        None => BindingAsk::LookFor(conf),
        Some(false) => BindingAsk::NotFound(host.spec_line("whisrs"@)),
        Some(true) => if !p.read {
            BindingAsk::Read(conf)
        } else if already_bound(opt_text(p.contents)) {
            BindingAsk::AlreadyBound
        } else {
            match p.program {
                None => BindingAsk::FindProgram,
                Some(program) => match p.wanted {
                    None => BindingAsk::AskUser,
                    Some(false) => BindingAsk::Declined(host.spec_line(program@)),
                    Some(true) => match p.appended {
                        None => BindingAsk::Append(conf, binding_text(host, program@)),
                        Some(done) => BindingAsk::Added(done),
                    },
                },
            }
        },
    }
}

/// Offer to add a key binding to the compositor's configuration: the next
/// step, after what is known so far.
pub fn setup_keybinding(
    host: BindingHost,
    p: &BindingProgress,
    config_dir: &Option<String>,
) -> (r: BindingStep)
    ensures
        r.ask() == binding_ask(host, *p, opt_text(*config_dir)),
{
    let conf = host.config(config_dir);
    match p.found {
        None => {
            return BindingStep::LookFor(conf);
        },
        Some(found) => {
            if !found {
                return BindingStep::Done(BindingOutcome::NotFound(host.line("whisrs")));
            }
        },
    }
    if !p.read {
        return BindingStep::Read(conf);
    }
    if let Some(s) = &p.contents {
        if text_contains(s.as_str(), "whisrs toggle") {
            return BindingStep::Done(BindingOutcome::AlreadyBound);
        }
    }
    let program = match &p.program {
        None => {
            return BindingStep::FindProgram;
        },
        Some(program) => program,
    };
    match p.wanted {
        None => BindingStep::AskUser,
        Some(wanted) => if !wanted {
            BindingStep::Done(BindingOutcome::Declined(host.line(program.as_str())))
        } else {
            match p.appended {
                None => BindingStep::Append(conf, appended_text(host, program.as_str())),
                Some(done) => BindingStep::Done(BindingOutcome::Added(done)),
            }
        },
    }
}

/// A configuration that binds the program already is left as it is.
pub proof fn bound_configuration_is_left_alone(
    host: BindingHost,
    p: BindingProgress,
    config_dir: Option<Seq<char>>,
)
    requires
        already_bound(opt_text(p.contents)),
    ensures
        !(binding_ask(host, p, config_dir) is Append),
{
}

/// The name of the Shell extension.
pub const EXTENSION_UUID: &'static str = "whisrs-overlay@eresende.github";

/// The directory of the user's GNOME Shell extensions.
pub open spec fn extensions_dir(data_dir: Option<Seq<char>>) -> Seq<char> {
    path_join(
        match data_dir {
            Some(d) => d,
            None => "~/.local/share"@,
        },
        "gnome-shell/extensions"@,
    )
}

/// What is known so far of the extension. A field is `None`, or false, until
/// its step was made.
#[derive(Debug, Clone)]
pub struct ExtensionProgress {
    /// Whether the extension was looked for in the installation.
    pub source_searched: bool,
    /// Where it was found.
    pub source: Option<String>,
    /// Whether the user has the extension already.
    pub installed: Option<bool>,
    /// Whether the user wants it installed.
    pub wanted: Option<bool>,
    /// Whether the directory could be made.
    pub dir_made: Option<bool>,
    /// Whether it could be copied.
    pub copied: Option<bool>,
    /// Whether it could be enabled.
    pub enabled: Option<bool>,
}

impl ExtensionProgress {
    /// Nothing done yet.
    pub fn new() -> (r: Self)
        ensures
            r == (ExtensionProgress {
                source_searched: false,
                source: None,
                installed: None,
                wanted: None,
                dir_made: None,
                copied: None,
                enabled: None,
            }),
    {
        ExtensionProgress {
            source_searched: false,
            source: None,
            installed: None,
            wanted: None,
            dir_made: None,
            copied: None,
            enabled: None,
        }
    }
}

/// How the offer of the extension ended.
#[derive(Debug, Clone, Copy, PartialEq, Eq, Structural)]
pub enum ExtensionOutcome {
    AlreadyInstalled,
    Declined,
    /// The installation does not hold the extension.
    NoSource,
    NoDirectory,
    NotCopied,
    /// It was copied; whether it could be enabled.
    Installed(bool),
}

/// What to do next about the extension.
#[derive(Debug)]
pub enum ExtensionStep {
    /// Look for the extension under this name in the installation.
    FindSource(String),
    /// Look whether the extension is at this path.
    LookFor(String),
    AskUser,
    MakeDir(String),
    /// Copy the directory at the first path into the second.
    Copy(String, String),
    /// Enable the extension.
    Enable,
    Done(ExtensionOutcome),
}

/// A step with what it works on.
pub enum ExtensionAsk {
    FindSource(Seq<char>),
    LookFor(Seq<char>),
    AskUser,
    MakeDir(Seq<char>),
    Copy(Seq<char>, Seq<char>),
    Enable,
    Done(ExtensionOutcome),
}

impl ExtensionStep {
    /// What a step asks for.
    pub open spec fn ask(self) -> ExtensionAsk {
        match self {
            ExtensionStep::FindSource(s) => ExtensionAsk::FindSource(s@),
            ExtensionStep::LookFor(s) => ExtensionAsk::LookFor(s@),
            ExtensionStep::AskUser => ExtensionAsk::AskUser,
            ExtensionStep::MakeDir(s) => ExtensionAsk::MakeDir(s@),
            ExtensionStep::Copy(a, b) => ExtensionAsk::Copy(a@, b@),
            ExtensionStep::Enable => ExtensionAsk::Enable,
            ExtensionStep::Done(o) => ExtensionAsk::Done(o),
        }
    }
}

/// The next step about the extension, after what is known so far.
pub open spec fn extension_ask(p: ExtensionProgress, data_dir: Option<Seq<char>>) -> ExtensionAsk {
    let root = extensions_dir(data_dir);
    if !p.source_searched {
        ExtensionAsk::FindSource("gnome-shell-extension/"@ + EXTENSION_UUID@)
    } else {
        match p.installed {
            None => ExtensionAsk::LookFor(path_join(root, EXTENSION_UUID@)),
            Some(true) => ExtensionAsk::Done(ExtensionOutcome::AlreadyInstalled),
            Some(false) => match p.wanted {
                None => ExtensionAsk::AskUser,
                Some(false) => ExtensionAsk::Done(ExtensionOutcome::Declined),
                Some(true) => match p.source {
                    None => ExtensionAsk::Done(ExtensionOutcome::NoSource),
                    Some(src) => match p.dir_made {
                        None => ExtensionAsk::MakeDir(root),
                        Some(false) => ExtensionAsk::Done(ExtensionOutcome::NoDirectory),
                        Some(true) => match p.copied {
                            None => ExtensionAsk::Copy(src@, root),
                            Some(false) => ExtensionAsk::Done(ExtensionOutcome::NotCopied),
                            Some(true) => match p.enabled {
                                None => ExtensionAsk::Enable,
                                Some(on) => ExtensionAsk::Done(ExtensionOutcome::Installed(on)),
                            },
                        },
                    },
                },
            },
        }
    }
}

/// On GNOME, offer to copy the bundled Shell extension into the user's
/// extensions and enable it: the next step, after what is known so far.
pub fn offer_install_gnome_extension(p: &ExtensionProgress, data_dir: &Option<String>) -> (r:
    ExtensionStep)
    ensures
        r.ask() == extension_ask(*p, opt_text(*data_dir)),
{
    if !p.source_searched {
        let mut name = "gnome-shell-extension/".to_owned();
        name.push_str(EXTENSION_UUID);
        return ExtensionStep::FindSource(name);
    }
    let dir: &str = match data_dir {
        Some(d) => d.as_str(),
        None => "~/.local/share",
    };
    let root = join_path(dir, "gnome-shell/extensions");
    match p.installed {
        None => {
            return ExtensionStep::LookFor(join_path(root.as_str(), EXTENSION_UUID));
        },
        Some(installed) => {
            if installed {
                return ExtensionStep::Done(ExtensionOutcome::AlreadyInstalled);
            }
        },
    }
    match p.wanted {
        None => {
            return ExtensionStep::AskUser;
        },
        Some(wanted) => {
            if !wanted {
                return ExtensionStep::Done(ExtensionOutcome::Declined);
            }
        },
    }
    let source = match &p.source {
        None => {
            return ExtensionStep::Done(ExtensionOutcome::NoSource);
        },
        Some(source) => source,
    };
    match p.dir_made {
        None => {
            return ExtensionStep::MakeDir(root);
        },
        Some(made) => {
            if !made {
                return ExtensionStep::Done(ExtensionOutcome::NoDirectory);
            }
        },
    }
    match p.copied {
        None => {
            return ExtensionStep::Copy(source.clone(), root);
        },
        Some(copied) => {
            if !copied {
                return ExtensionStep::Done(ExtensionOutcome::NotCopied);
            }
        },
    }
    match p.enabled {
        None => ExtensionStep::Enable,
        Some(on) => ExtensionStep::Done(ExtensionOutcome::Installed(on)),
    }
}

} // verus!
