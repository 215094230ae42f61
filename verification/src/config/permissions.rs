//! Giving the user access to the input device, and finding the files and
//! programs that an installation needs.

use crate::config::types::{join_path, path_join};
use crate::text::{opt_text, text_list, texts, trim, trimmed};
use vstd::prelude::*;

verus! {

/// What came of opening the input device for writing.
#[derive(Debug, Clone, Copy, PartialEq, Eq, Structural)]
pub enum DeviceAccess {
    Opened,
    /// The user may not open it.
    Denied,
    /// It cannot be opened for another reason.
    Unavailable,
}

/// What is known so far. A field is `None`, or false, until its step was made.
#[derive(Debug, Clone)]
pub struct UinputProgress {
    pub access: Option<DeviceAccess>,
    /// Whether the rule file of the installation was looked for.
    pub rule_searched: bool,
    /// Where the rule file was found.
    pub rule_file: Option<String>,
    /// Whether the user wants the permissions fixed.
    pub fix: Option<bool>,
    /// Whether the rule could be installed.
    pub rule_installed: Option<bool>,
    pub rules_reloaded: bool,
    pub devices_triggered: bool,
    /// Whether the user could be added to the group.
    pub group_joined: Option<bool>,
}

impl UinputProgress {
    /// Nothing done yet.
    pub fn new() -> (r: Self)
        ensures
            r == (UinputProgress {
                access: None,
                rule_searched: false,
                rule_file: None,
                fix: None,
                rule_installed: None,
                rules_reloaded: false,
                devices_triggered: false,
                group_joined: None,
            }),
    {
        UinputProgress {
            access: None,
            rule_searched: false,
            rule_file: None,
            fix: None,
            rule_installed: None,
            rules_reloaded: false,
            devices_triggered: false,
            group_joined: None,
        }
    }
}

/// A privileged command of the repair.
#[derive(Debug, Clone, Copy, PartialEq, Eq, Structural)]
pub enum Repair {
    InstallRule,
    ReloadRules,
    TriggerDevices,
    JoinGroup,
}

/// How the check of the permissions ended.
#[derive(Debug, Clone, Copy, PartialEq, Eq, Structural)]
pub enum UinputOutcome {
    /// The device can be used.
    Accessible,
    /// The device cannot be opened, and permissions are not why.
    Unavailable,
    /// The user does it by hand.
    Declined,
    /// The repair was made: whether the rule was installed, and whether the
    /// user was added to the group.
    Repaired(bool, bool),
}

/// What to do next about the permissions of the input device.
#[derive(Debug)]
pub enum UinputStep {
    /// Open the device for writing.
    OpenDevice,
    /// Look for the rule file of the installation.
    FindRule,
    /// Ask whether to fix the permissions.
    AskFix,
    /// Run a command with these arguments under `sudo`.
    Run(Repair, Vec<String>),
    Done(UinputOutcome),
}

/// A step with what it runs.
pub enum UinputAsk {
    OpenDevice,
    FindRule,
    AskFix,
    Run(Repair, Seq<Seq<char>>),
    Done(UinputOutcome),
}

impl UinputStep {
    /// What a step asks for.
    pub open spec fn ask(self) -> UinputAsk {
        match self {
            UinputStep::OpenDevice => UinputAsk::OpenDevice,
            UinputStep::FindRule => UinputAsk::FindRule,
            UinputStep::AskFix => UinputAsk::AskFix,
            UinputStep::Run(k, v) => UinputAsk::Run(k, texts(v@)),
            UinputStep::Done(o) => UinputAsk::Done(o),
        }
    }
}

/// The rule that gives the input group access to the device.
pub const UDEV_RULE: &'static str = "KERNEL==\"uinput\", SUBSYSTEM==\"misc\", MODE=\"0660\", GROUP=\"input\", TAG+=\"uaccess\"\nKERNEL==\"uinput\", SUBSYSTEM==\"misc\", TEST==\"/usr/bin/setfacl\", RUN+=\"/usr/bin/setfacl -m g:input:rw /dev/$name\"";

/// The shell command that writes the rule.
pub open spec fn write_rule_command() -> Seq<char> {
    "echo '"@ + UDEV_RULE@ + "' > /etc/udev/rules.d/99-whisrs.rules"@
}

/// The command that installs the rule: it copies the file of the installation
/// where there is one, and writes the rule out where there is none.
pub open spec fn install_rule_command(rule_file: Option<Seq<char>>) -> Seq<Seq<char>> {
    match rule_file {
        Some(src) => seq!["cp"@, src, "/etc/udev/rules.d/"@],
        None => seq!["bash"@, "-c"@, write_rule_command()],
    }
}

fn install_rule_arguments(rule_file: &Option<String>) -> (r: Vec<String>)
    ensures
        texts(r@) == install_rule_command(opt_text(*rule_file)),
{
    match rule_file {
        Some(src) => {
            let r = text_list(&["cp", src.as_str(), "/etc/udev/rules.d/"]);
            assert(texts(r@) =~= install_rule_command(opt_text(*rule_file)));
            r
        },
        None => {
            let mut command = "echo '".to_owned();
            command.push_str(UDEV_RULE);
            command.push_str("' > /etc/udev/rules.d/99-whisrs.rules");
            let r = text_list(&["bash", "-c", command.as_str()]);
            assert(texts(r@) =~= install_rule_command(opt_text(*rule_file)));
            r
        },
    }
}

/// The name of the user, where the environment tells it.
pub open spec fn user_name(user: Option<Seq<char>>) -> Seq<char> {
    match user {
        Some(u) => u,
        None => "unknown"@,
    }
}

/// The next step, after what is known so far. The rules are reloaded only
/// where the rule was installed; the user is added to the group either way.
pub open spec fn uinput_ask(p: UinputProgress, user: Option<Seq<char>>) -> UinputAsk {
    match p.access {
        None => UinputAsk::OpenDevice,
        Some(DeviceAccess::Opened) => UinputAsk::Done(UinputOutcome::Accessible),
        Some(DeviceAccess::Unavailable) => UinputAsk::Done(UinputOutcome::Unavailable),
        Some(DeviceAccess::Denied) => if !p.rule_searched {
            UinputAsk::FindRule
        } else {
            match p.fix {
                None => UinputAsk::AskFix,
                Some(false) => UinputAsk::Done(UinputOutcome::Declined),
                Some(true) => match p.rule_installed {
                    None => UinputAsk::Run(
                        Repair::InstallRule,
                        install_rule_command(opt_text(p.rule_file)),
                    ),
                    Some(installed) => if installed && !p.rules_reloaded {
                        UinputAsk::Run(
                            Repair::ReloadRules,
                            seq!["udevadm"@, "control"@, "--reload-rules"@],
                        )
                    } else if installed && !p.devices_triggered {
                        UinputAsk::Run(Repair::TriggerDevices, seq!["udevadm"@, "trigger"@])
                    } else {
                        match p.group_joined {
                            None => UinputAsk::Run(
                                Repair::JoinGroup,
                                seq!["usermod"@, "-aG"@, "input"@, user_name(user)],
                            ),
                            Some(joined) => UinputAsk::Done(
                                UinputOutcome::Repaired(installed, joined),
                            ),
                        }
                    },
                },
            }
        },
    }
}

/// Check if the input device is accessible, and fix it where the user wants
/// that: the next step, after what is known so far.
pub fn setup_uinput_permissions(p: &UinputProgress, user: &Option<String>) -> (r: UinputStep)
    ensures
        r.ask() == uinput_ask(*p, opt_text(*user)),
{
    match p.access {
        None => {
            return UinputStep::OpenDevice;
        },
        Some(DeviceAccess::Opened) => {
            return UinputStep::Done(UinputOutcome::Accessible);
        },
        Some(DeviceAccess::Unavailable) => {
            return UinputStep::Done(UinputOutcome::Unavailable);
        },
        Some(DeviceAccess::Denied) => {},
    }
    if !p.rule_searched {
        return UinputStep::FindRule;
    }
    match p.fix {
        None => {
            return UinputStep::AskFix;
        },
        Some(wanted) => {
            if !wanted {
                return UinputStep::Done(UinputOutcome::Declined);
            }
        },
    }
    let installed: bool = match p.rule_installed {
        None => {
            return UinputStep::Run(Repair::InstallRule, install_rule_arguments(&p.rule_file));
        },
        Some(installed) => installed,
    };
    if installed && !p.rules_reloaded {
        let v = text_list(&["udevadm", "control", "--reload-rules"]);
        assert(texts(v@) =~= seq!["udevadm"@, "control"@, "--reload-rules"@]);
        return UinputStep::Run(Repair::ReloadRules, v);
    }
    if installed && !p.devices_triggered {
        let v = text_list(&["udevadm", "trigger"]);
        assert(texts(v@) =~= seq!["udevadm"@, "trigger"@]);
        return UinputStep::Run(Repair::TriggerDevices, v);
    }
    match p.group_joined {
        None => {
            let name: &str = match user {
                Some(u) => u.as_str(),
                None => "unknown",
            };
            let v = text_list(&["usermod", "-aG", "input", name]);
            assert(name@ == user_name(opt_text(*user)));
            assert(texts(v@) =~= seq!["usermod"@, "-aG"@, "input"@, name@]);
            UinputStep::Run(Repair::JoinGroup, v)
        },
        Some(joined) => UinputStep::Done(UinputOutcome::Repaired(installed, joined)),
    }
}

/// No command is run before the device was found closed to the user and the
/// user asked for the repair.
pub proof fn nothing_runs_unasked(p: UinputProgress, user: Option<Seq<char>>)
    ensures
        uinput_ask(p, user) is Run ==> p.access == Some(DeviceAccess::Denied) && p.fix == Some(true),
{
}

/// The places where a file of the installation is looked for, in order: below
/// each directory above the program, and below the current directory.
pub open spec fn contrib_places(ancestors: Seq<Seq<char>>, name: Seq<char>) -> Seq<Seq<char>> {
    Seq::new(
        ancestors.len(),
        |i: int| path_join(path_join(ancestors[i], "contrib"@), name),
    ).push(path_join("contrib"@, name))
}

/// The places where a file of the installation is looked for, in order, given
/// the directories above the program.
pub fn contrib_candidates(ancestors: &[String], name: &str) -> (r: Vec<String>)
    ensures
        texts(r@) == contrib_places(texts(ancestors@), name@),
{
    let ghost dirs = texts(ancestors@);
    let mut r: Vec<String> = Vec::new();
    let mut i: usize = 0;
    while i < ancestors.len()
        invariant
            i <= ancestors@.len(),
            dirs == texts(ancestors@),
            texts(r@) == Seq::new(
                i as nat,
                |j: int| path_join(path_join(dirs[j], "contrib"@), name@),
            ),
        decreases ancestors@.len() - i,
    {
        let ghost before = texts(r@);
        assert(dirs[i as int] == ancestors@[i as int]@);
        let dir = join_path(ancestors[i].as_str(), "contrib");
        let place = join_path(dir.as_str(), name);
        let ghost added = place@;
        r.push(place);
        assert(texts(r@) =~= before.push(added));
        i += 1;
        assert(texts(r@) =~= Seq::new(
            i as nat,
            |j: int| path_join(path_join(dirs[j], "contrib"@), name@),
        ));
    }
    let ghost before = texts(r@);
    let place = join_path("contrib", name);
    let ghost added = place@;
    r.push(place);
    assert(texts(r@) =~= before.push(added));
    r
}

/// The first index from `i` on whose file is there.
pub open spec fn first_there(there: Seq<bool>, i: int) -> Option<int>
    decreases there.len() - i,
{
    if i >= there.len() {
        None
    } else if there[i] {
        Some(i)
    } else {
        first_there(there, i + 1)
    }
}

/// The file of the installation: the first of the places where it is, given
/// for each place whether the file is there.
pub fn find_contrib_file(places: &[String], there: &[bool]) -> (r: Option<String>)
    requires
        places@.len() == there@.len(),
    ensures
        match first_there(there@, 0) {
            Some(i) => opt_text(r) == Some(texts(places@)[i]),
            None => r is None,
        },
{
    let mut i: usize = 0;
    while i < there.len()
        invariant
            i <= there@.len(),
            places@.len() == there@.len(),
            first_there(there@, 0) == first_there(there@, i as int),
        decreases there@.len() - i,
    {
        if there[i] {
            return Some(places[i].clone());
        }
        i += 1;
    }
    None
}

/// The path to a program: what the search of the user's path printed, or else
/// the place where `cargo` installs it.
pub open spec fn program_path(
    printed: Option<Seq<char>>,
    home: Option<Seq<char>>,
    name: Seq<char>,
) -> Seq<char> {
    match printed {
        Some(s) => trim(s),
        None => path_join(
            match home {
                Some(h) => h,
                None => "~"@,
            },
            ".cargo/bin/"@ + name,
        ),
    }
}

/// Get the path to a program of the installation.
pub fn which_program(printed: &Option<String>, home: &Option<String>, name: &str) -> (r: String)
    ensures
        r@ == program_path(opt_text(*printed), opt_text(*home), name@),
{
    match printed {
        Some(s) => trimmed(s.as_str()),
        None => {
            let dir: &str = match home {
                Some(h) => h.as_str(),
                None => "~",
            };
            let mut rel = ".cargo/bin/".to_owned();
            rel.push_str(name);
            join_path(dir, rel.as_str())
        },
    }
}

} // verus!
