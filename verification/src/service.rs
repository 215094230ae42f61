//! The daemon's service and what came of restarting it.

use vstd::prelude::*;

verus! {

/// What runs the daemon as a service.
#[derive(Debug, Clone, Copy, PartialEq, Eq, Structural)]
pub enum ServiceManager {
    Systemd,
    OpenRc,
    /// No service manager was found.
    Unmanaged,
}

/// What came of restarting the daemon.
#[derive(Debug, Clone, Copy, PartialEq, Eq, Structural)]
pub enum RestartOutcome {
    Restarted,
    Failed,
    /// No service is installed that could be restarted.
    NoService,
}

/// What the user is told after a restart.
#[derive(Debug, Clone, Copy, PartialEq, Eq, Structural)]
pub enum RestartAdvice {
    Restarted,
    /// It failed; the journal tells why.
    ReadJournal,
    /// It failed; the daemon's log tells why.
    ReadLog,
    /// It failed.
    Failed,
    /// The daemon is to be restarted by hand.
    RestartByHand,
}

/// What the user is told of a restart that the configuration editor made.
pub fn restart_advice(outcome: RestartOutcome, manager: ServiceManager) -> (r: RestartAdvice)
    ensures
        r == (match outcome {
            RestartOutcome::Restarted => RestartAdvice::Restarted,
            RestartOutcome::NoService => RestartAdvice::RestartByHand,
            RestartOutcome::Failed => match manager {
                ServiceManager::Systemd => RestartAdvice::ReadJournal,
                ServiceManager::OpenRc => RestartAdvice::ReadLog,
                ServiceManager::Unmanaged => RestartAdvice::Failed,
            },
        }),
{
    match outcome {
        RestartOutcome::Restarted => RestartAdvice::Restarted,
        RestartOutcome::NoService => RestartAdvice::RestartByHand,
        RestartOutcome::Failed => match manager {
            ServiceManager::Systemd => RestartAdvice::ReadJournal,
            ServiceManager::OpenRc => RestartAdvice::ReadLog,
            ServiceManager::Unmanaged => RestartAdvice::Failed,
        },
    }
}

} // verus!
