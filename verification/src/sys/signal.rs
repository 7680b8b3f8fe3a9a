//! Signals: what a process is sent, and how shutdown is noticed.

use vstd::prelude::*;
use crate::spawn::error;
use crate::spawn::error::{Reply, SysError};
use std::sync::atomic::AtomicBool;

verus! {

/// Interrupt from the keyboard.
pub const SIGINT: i32 = 2;
/// Kill; it cannot be caught.
pub const SIGKILL: i32 = 9;
/// Write to a pipe that no one reads.
pub const SIGPIPE: i32 = 13;
/// Request to terminate.
pub const SIGTERM: i32 = 15;

/// Policy for handling process cancellation or timeouts.
#[derive(Clone, Copy, Debug, PartialEq, Eq, Structural)]
pub enum CancelPolicy {
    /// Do nothing on cancellation; let the process run to completion.
    DoNothing,
    /// Send SIGTERM, then SIGKILL after a grace period.
    Graceful,
    /// Send SIGKILL immediately.
    Kill,
}

impl Default for CancelPolicy {
    fn default() -> (r: Self)
        ensures
            r == CancelPolicy::DoNothing,
    {
        CancelPolicy::DoNothing
    }
}

/// Process group and session configuration.
#[derive(Clone, Copy, Debug, PartialEq, Eq, Structural)]
pub struct ProcessGroup {
    /// Join the process group of this leader.
    pub leader: Option<i32>,
    /// Create a new session.
    pub isolated: bool,
}

impl ProcessGroup {
    /// A process group configuration.
    pub fn new(leader: Option<i32>, isolated: bool) -> (r: Self)
        ensures
            r == (ProcessGroup { leader, isolated }),
    {
        ProcessGroup { leader, isolated }
    }

    /// Whether a signal meant for the process goes to its whole group.
    pub open spec fn group_wide(self) -> bool {
        self.isolated || self.leader is Some
    }

    /// Whether a signal meant for the process goes to its whole group.
    pub fn is_group(&self) -> (r: bool)
        ensures
            r == self.group_wide(),
    {
        self.isolated || self.leader.is_some()
    }
}

impl Default for ProcessGroup {
    fn default() -> (r: Self)
        ensures
            r == (ProcessGroup { leader: None, isolated: false }),
    {
        ProcessGroup { leader: None, isolated: false }
    }
}

/// Utilities for process signal management.
#[derive(Clone, Copy, Debug)]
pub struct SignalRuntime;

impl SignalRuntime {
    /// What the reply to unblocking all signals means.
    pub fn unblock_all(reply: Reply) -> (r: Result<(), SysError>)
        ensures
            reply.ret == -1 ==> error::failed_with(r, reply.code, "sigprocmask"@),
            reply.ret != -1 ==> r is Ok,
    {
        if reply.ret == -1 {
            return Err(SysError::sys(reply.code, "sigprocmask"));
        }
        Ok(())
    }
}

/// Tells whether the installed handler has flipped the flag: what an acquiring
/// load of the flag returns. Which value that is depends on what the handler has
/// stored by then.
pub fn shutdown_requested(flag: &AtomicBool) -> (r: bool)
    ensures
        call_ensures(AtomicBool::load, (flag, std::sync::atomic::Ordering::Acquire), r),
{
    flag.load(std::sync::atomic::Ordering::Acquire)
}

/// The name of the operation that sets the handler of a signal.
pub open spec fn sigaction_op(signal: i32) -> Seq<char> {
    if signal == SIGINT {
        "sigaction(SIGINT)"@
    } else if signal == SIGTERM {
        "sigaction(SIGTERM)"@
    } else {
        "sigaction"@
    }
}

/// The error of setting the handler of a signal.
pub fn sigaction_error(signal: i32, code: i32) -> (r: SysError)
    ensures
        r@ == (code, sigaction_op(signal)),
{
    let op = if signal == SIGINT {
        "sigaction(SIGINT)"
    } else if signal == SIGTERM {
        "sigaction(SIGTERM)"
    } else {
        "sigaction"
    };
    SysError::sys(code, op)
}

/// How far the installation of a shutdown flag has come.
#[derive(Clone, Copy, Debug, PartialEq, Eq, Structural)]
pub enum InstallPhase {
    /// The handler of SIGINT is being set.
    Interrupt,
    /// The handler of SIGTERM is being set.
    Terminate,
    /// The old handler of SIGINT is being put back, because setting that of
    /// SIGTERM failed with this error number.
    Restore(i32),
    /// It is over.
    Over,
}

/// What to do next to install a shutdown flag.
#[derive(Clone, Copy, Debug, PartialEq, Eq, Structural)]
pub enum InstallAction {
    /// Set the new handler of the signal, and keep the old one.
    Handle(i32),
    /// Put back the old handler of the signal.
    PutBack(i32),
    /// Publish the flag; the installation has succeeded.
    Publish,
    /// The installation has failed: setting the handler of `signal` failed with
    /// `code`.
    Fail {
        signal: i32,
        code: i32,
    },
}

/// The installation of handlers for SIGINT and SIGTERM that flip a flag.
///
/// The flag is published only once both handlers are in place, so a failure
/// leaves the flag that was in effect before. Where the second handler cannot be
/// set, the first is put back.
#[derive(Debug)]
pub struct ShutdownInstall {
    phase: InstallPhase,
}

/// What a reply to setting a handler leads to.
pub open spec fn install_step(phase: InstallPhase, reply: Reply) -> (InstallPhase, InstallAction) {
    let failed = reply.ret == -1;
    match phase {
        InstallPhase::Interrupt => if failed {
            (InstallPhase::Over, InstallAction::Fail { signal: SIGINT, code: reply.code })
        } else {
            (InstallPhase::Terminate, InstallAction::Handle(SIGTERM))
        },
        InstallPhase::Terminate => if failed {
            (InstallPhase::Restore(reply.code), InstallAction::PutBack(SIGINT))
        } else {
            (InstallPhase::Over, InstallAction::Publish)
        },
        InstallPhase::Restore(code) => if failed {
            (InstallPhase::Over, InstallAction::Fail { signal: SIGINT, code: reply.code })
        } else {
            (InstallPhase::Over, InstallAction::Fail { signal: SIGTERM, code })
        },
        InstallPhase::Over => (InstallPhase::Over, InstallAction::Publish),
    }
}

impl ShutdownInstall {
    pub closed spec fn at(&self) -> InstallPhase {
        self.phase
    }

    /// Starts an installation: set the handler of SIGINT first.
    pub fn start() -> (r: (Self, InstallAction))
        ensures
            r.0.at() == InstallPhase::Interrupt,
            r.1 == InstallAction::Handle(SIGINT),
    {
        (ShutdownInstall { phase: InstallPhase::Interrupt }, InstallAction::Handle(SIGINT))
    }

    /// Takes the reply to the last action.
    pub fn step(&mut self, reply: Reply) -> (r: InstallAction)
        requires
            old(self).at() != InstallPhase::Over,
        ensures
            (final(self).at(), r) == install_step(old(self).at(), reply),
    {
        let failed: bool = reply.ret == -1;
        match self.phase {
            InstallPhase::Interrupt => {
                if failed {
                    self.phase = InstallPhase::Over;
                    InstallAction::Fail { signal: SIGINT, code: reply.code }
                } else {
                    self.phase = InstallPhase::Terminate;
                    InstallAction::Handle(SIGTERM)
                }
            },
            InstallPhase::Terminate => {
                if failed {
                    self.phase = InstallPhase::Restore(reply.code);
                    InstallAction::PutBack(SIGINT)
                } else {
                    self.phase = InstallPhase::Over;
                    InstallAction::Publish
                }
            },
            InstallPhase::Restore(code) => {
                self.phase = InstallPhase::Over;
                if failed {
                    InstallAction::Fail { signal: SIGINT, code: reply.code }
                } else {
                    InstallAction::Fail { signal: SIGTERM, code }
                }
            },
            InstallPhase::Over => InstallAction::Publish,
        }
    }
}

/// What an installation comes to on given replies, from a phase on.
pub open spec fn install_result(phase: InstallPhase, replies: Seq<Reply>) -> Option<InstallAction>
    decreases replies.len(),
{
    if replies.len() == 0 {
        None
    } else {
        let (next, action) = install_step(phase, replies[0]);
        if next == InstallPhase::Over {
            Some(action)
        } else {
            install_result(next, replies.skip(1))
        }
    }
}

/// The flag is published exactly where both handlers were set. Where that of
/// SIGTERM was not, that of SIGINT has been put back and the error is that of
/// SIGTERM, unless putting it back failed too: then that is the error.
pub proof fn law_published_only_after_both(interrupt: Reply, terminate: Reply, restore: Reply)
    ensures
        install_result(InstallPhase::Interrupt, seq![interrupt, terminate, restore]) == Some(
            if interrupt.ret == -1 {
                InstallAction::Fail { signal: SIGINT, code: interrupt.code }
            } else if terminate.ret != -1 {
                InstallAction::Publish
            } else if restore.ret == -1 {
                InstallAction::Fail { signal: SIGINT, code: restore.code }
            } else {
                InstallAction::Fail { signal: SIGTERM, code: terminate.code }
            },
        ),
{
    let replies = seq![interrupt, terminate, restore];
    assert(replies.skip(1) =~= seq![terminate, restore]);
    assert(replies.skip(1).skip(1) =~= seq![restore]);
    reveal_with_fuel(install_result, 4);
}

/// A signal goes to the whole group of a process that joins a group or has a
/// session of its own, and to the process alone where it does neither.
pub proof fn law_groups_are_signalled_as_a_whole(group: ProcessGroup)
    ensures
        group.isolated ==> group.group_wide(),
        group.leader is Some ==> group.group_wide(),
        !group.isolated && group.leader is None ==> !group.group_wide(),
{
}

/// Which operation a failure to set a handler is reported as: 2 is SIGINT and 15
/// is SIGTERM.
pub proof fn law_handlers_are_told_apart(signal: i32)
    ensures
        sigaction_op(2) == "sigaction(SIGINT)"@,
        sigaction_op(15) == "sigaction(SIGTERM)"@,
        signal != 2 && signal != 15 ==> sigaction_op(signal) == "sigaction"@,
{
}

/// How an installation goes on: after the handler of SIGINT (2) that of SIGTERM
/// (15) is set, and then the flag is published; where that of SIGTERM could not be
/// set, that of SIGINT is put back first, and the error number is kept.
pub proof fn law_installation_goes_on(reply: Reply, code: i32)
    ensures
        reply.ret != -1 ==> install_step(InstallPhase::Interrupt, reply) == (
            InstallPhase::Terminate,
            InstallAction::Handle(15),
        ),
        reply.ret != -1 ==> install_step(InstallPhase::Terminate, reply) == (
            InstallPhase::Over,
            InstallAction::Publish,
        ),
        reply.ret != -1 ==> install_step(InstallPhase::Restore(code), reply) == (
            InstallPhase::Over,
            InstallAction::Fail { signal: 15, code },
        ),
        reply.ret == -1 ==> install_step(InstallPhase::Interrupt, reply) == (
            InstallPhase::Over,
            InstallAction::Fail { signal: 2, code: reply.code },
        ),
        reply.ret == -1 ==> install_step(InstallPhase::Terminate, reply) == (
            InstallPhase::Restore(reply.code),
            InstallAction::PutBack(2),
        ),
        reply.ret == -1 ==> install_step(InstallPhase::Restore(code), reply) == (
            InstallPhase::Over,
            InstallAction::Fail { signal: 2, code: reply.code },
        ),
{
}

} // verus!
