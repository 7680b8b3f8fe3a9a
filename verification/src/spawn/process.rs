//! Processes and how they end.

use vstd::prelude::*;
use crate::spawn::error;
use crate::spawn::error::{syscall_result, Reply, Step, SysError, EINTR, ESRCH};

verus! {

/// How a process ended.
#[derive(Clone, Copy, Debug, PartialEq, Eq, Structural)]
pub enum ExitStatus {
    /// It exited with the given code.
    Exited(i32),
    /// A signal terminated it.
    Signaled(i32),
}

/// `libc::WIFEXITED`: the process exited if and only if the low seven bits of
/// its wait status are zero.
pub assume_specification[ libc::WIFEXITED ](status: i32) -> (r: bool)
    ensures
        r == (status & 0x7f == 0),
;

/// `libc::WEXITSTATUS`: the exit code is the second lowest byte of the wait
/// status.
pub assume_specification[ libc::WEXITSTATUS ](status: i32) -> (r: i32)
    ensures
        r == (status >> 8) & 0xff,
;

/// `libc::WIFSIGNALED`: a signal terminated the process if and only if the low
/// seven bits of its wait status are neither zero nor all ones.
pub assume_specification[ libc::WIFSIGNALED ](status: i32) -> (r: bool)
    ensures
        r == (status & 0x7f != 0 && status & 0x7f != 0x7f),
;

/// `libc::WTERMSIG`: the signal is the low seven bits of the wait status.
pub assume_specification[ libc::WTERMSIG ](status: i32) -> (r: i32)
    ensures
        r == status & 0x7f,
;

/// How the process of the given wait status ended. One that did neither exit
/// nor die of a signal counts as exited with -1.
pub open spec fn exit_status(status: i32) -> ExitStatus {
    if status & 0x7f == 0 {
        ExitStatus::Exited((status >> 8) & 0xff)
    } else if status & 0x7f != 0x7f {
        ExitStatus::Signaled(status & 0x7f)
    } else {
        ExitStatus::Exited(-1i32)
    }
}

/// Decodes a wait status.
pub fn decode_status(status: i32) -> (r: ExitStatus)
    ensures
        r == exit_status(status),
{
    if libc::WIFEXITED(status) {
        ExitStatus::Exited(libc::WEXITSTATUS(status))
    } else if libc::WIFSIGNALED(status) {
        ExitStatus::Signaled(libc::WTERMSIG(status))
    } else {
        ExitStatus::Exited(-1)
    }
}

/// What sending a signal came to: that there is no one to get it is no failure.
pub open spec fn signal_outcome(r: Result<(), SysError>, reply: Reply, op: Seq<char>) -> bool {
    if reply.ret < 0 && reply.code != ESRCH {
        error::failed_with(r, reply.code, op)
    } else {
        r is Ok
    }
}

fn signal_result(reply: Reply, op: &str) -> (r: Result<(), SysError>)
    ensures
        signal_outcome(r, reply, op@),
{
    if reply.ret < 0 {
        if reply.code == ESRCH {
            return Ok(());
        }
        return syscall_result(-1, reply.code, op);
    }
    Ok(())
}

/// A handle to a process.
#[derive(Debug)]
pub struct Process {
    pid: i32,
}

impl Process {
    pub closed spec fn number(&self) -> i32 {
        self.pid
    }

    /// The handle of an existing process.
    pub fn new(pid: i32) -> (r: Self)
        ensures
            r.number() == pid,
    {
        Process { pid }
    }

    /// The process ID.
    pub fn pid(&self) -> (r: i32)
        ensures
            r == self.number(),
    {
        self.pid
    }

    /// Whom to address so that the whole process group gets a signal.
    pub fn group(&self) -> (r: i32)
        requires
            self.number() > i32::MIN,
        ensures
            r == -self.number(),
    {
        -self.pid
    }

    /// Decides what a reply to waiting for this process without blocking means:
    /// `None` where it still runs.
    pub fn wait_step(&self, reply: Reply, status: i32) -> (r: Step<
        Result<Option<ExitStatus>, SysError>,
    >)
        ensures
            reply.ret == 0 ==> r == Step::<Result<Option<ExitStatus>, SysError>>::Done(Ok(None)),
            reply.ret > 0 ==> r == Step::<Result<Option<ExitStatus>, SysError>>::Done(
                Ok(Some(exit_status(status))),
            ),
            reply.ret < 0 && reply.code == EINTR ==> r is Retry,
            reply.ret < 0 && reply.code != EINTR ==> (r matches Step::Done(done)
                && error::failed_with(done, reply.code, "waitpid_step"@)),
    {
        if reply.ret == 0 {
            return Step::Done(Ok(None));
        }
        if reply.ret < 0 {
            if reply.code == EINTR {
                return Step::Retry;
            }
            return Step::Done(Err(SysError::sys(reply.code, "waitpid_step")));
        }
        Step::Done(Ok(Some(decode_status(status))))
    }

    /// Decides what a reply to waiting for this process to end means.
    pub fn wait_blocking(&self, reply: Reply, status: i32) -> (r: Step<
        Result<ExitStatus, SysError>,
    >)
        ensures
            reply.ret >= 0 ==> r == Step::<Result<ExitStatus, SysError>>::Done(
                Ok(exit_status(status)),
            ),
            reply.ret < 0 && reply.code == EINTR ==> r is Retry,
            reply.ret < 0 && reply.code != EINTR ==> (r matches Step::Done(done)
                && error::failed_with(done, reply.code, "waitpid_blocking"@)),
    {
        if reply.ret < 0 {
            if reply.code == EINTR {
                return Step::Retry;
            }
            return Step::Done(Err(SysError::sys(reply.code, "waitpid_blocking")));
        }
        Step::Done(Ok(decode_status(status)))
    }

    /// What a reply to sending the process a signal means.
    pub fn kill(&self, reply: Reply) -> (r: Result<(), SysError>)
        ensures
            signal_outcome(r, reply, "kill"@),
    {
        signal_result(reply, "kill")
    }

    /// What a reply to sending the process group a signal means.
    pub fn kill_pgroup(&self, reply: Reply) -> (r: Result<(), SysError>)
        ensures
            signal_outcome(r, reply, "kill_pgroup"@),
    {
        signal_result(reply, "kill_pgroup")
    }
}

/// An exit code is one byte, or -1; a signal is between 1 and 126.
pub proof fn law_exit_status_ranges(status: i32)
    ensures
        match exit_status(status) {
            ExitStatus::Exited(code) => -1 <= code <= 255,
            ExitStatus::Signaled(sig) => 1 <= sig <= 126,
        },
{
    assert(0 <= (status >> 8) & 0xff <= 255) by (bit_vector);
    assert(0 <= status & 0x7f <= 127) by (bit_vector);
}

/// A process that exits with a code is reported with that code, whatever the
/// status holds above it and whether or not the core bit is set.
pub proof fn law_exit_codes_are_reported(code: i32, core: bool, high: i32)
    requires
        0 <= code <= 255,
        -0x8000 <= high < 0x8000,
    ensures
        exit_status(code << 8) == ExitStatus::Exited(code),
        exit_status((high << 16) | (code << 8) | (if core {
            0x80i32
        } else {
            0i32
        })) == ExitStatus::Exited(code),
{
    let bit: i32 = if core {
        0x80
    } else {
        0
    };
    assert((code << 8) & 0x7f == 0 && ((code << 8) >> 8) & 0xff == code) by (bit_vector)
        requires
            0 <= code <= 255,
    ;
    let status = (high << 16) | (code << 8) | bit;
    assert(status & 0x7f == 0 && (status >> 8) & 0xff == code) by (bit_vector)
        requires
            0 <= code <= 255,
            bit == 0 || bit == 0x80,
            status == (high << 16) | (code << 8) | bit,
    ;
}

/// A process that a signal terminates is reported with that signal, with or
/// without a core dump and whatever the status holds above.
pub proof fn law_signals_are_reported(signal: i32, core: bool, high: i32)
    requires
        1 <= signal <= 126,
        -0x80_0000 <= high < 0x80_0000,
    ensures
        exit_status(signal) == ExitStatus::Signaled(signal),
        exit_status(signal | 0x80) == ExitStatus::Signaled(signal),
        exit_status((high << 8) | (if core {
            0x80i32
        } else {
            0i32
        }) | signal) == ExitStatus::Signaled(signal),
{
    let bit: i32 = if core {
        0x80
    } else {
        0
    };
    assert(signal & 0x7f == signal && (signal | 0x80) & 0x7f == signal) by (bit_vector)
        requires
            1 <= signal <= 126,
    ;
    let status = (high << 8) | bit | signal;
    assert(status & 0x7f == signal) by (bit_vector)
        requires
            1 <= signal <= 126,
            bit == 0 || bit == 0x80,
            status == (high << 8) | bit | signal,
    ;
}

/// A process that was stopped or continued has neither exited nor died, and
/// counts as exited with -1.
pub proof fn law_other_changes_count_as_minus_one(status: i32)
    requires
        status & 0x7f == 0x7f,
    ensures
        exit_status(status) == ExitStatus::Exited(-1i32),
{
}

/// Sending a signal fails only where the call failed for another reason than that
/// there is no one to get it, and then it says why.
pub proof fn law_a_missing_process_is_no_failure(
    r: Result<(), SysError>,
    ret: isize,
    code: i32,
    op: Seq<char>,
)
    requires
        signal_outcome(r, Reply { ret, code }, op),
    ensures
        r is Err <==> ret < 0 && code != ESRCH,
        r matches Err(e) ==> e->code == code && e->op@ == op,
{
}

/// A process that has ended is reported with the code that it exited with or the
/// signal that it died of, however it was waited for; one that still runs is
/// reported as such, and only by a look that does not wait. An interrupted call is
/// made again, and any other failure is reported with its number.
pub proof fn law_waiting_tells_how_it_ended(
    process: &Process,
    reply: Reply,
    code: i32,
    signal: i32,
    looked: Step<Result<Option<ExitStatus>, SysError>>,
    waited: Step<Result<ExitStatus, SysError>>,
    status: i32,
)
    requires
        0 <= code <= 255,
        1 <= signal <= 126,
        call_ensures(Process::wait_step, (process, reply, status), looked),
        call_ensures(Process::wait_blocking, (process, reply, status), waited),
    ensures
        reply.ret > 0 && status == code << 8 ==> looked == Step::<
            Result<Option<ExitStatus>, SysError>,
        >::Done(Ok(Some(ExitStatus::Exited(code)))) && waited == Step::<
            Result<ExitStatus, SysError>,
        >::Done(Ok(ExitStatus::Exited(code))),
        reply.ret > 0 && status == signal ==> looked == Step::<
            Result<Option<ExitStatus>, SysError>,
        >::Done(Ok(Some(ExitStatus::Signaled(signal)))) && waited == Step::<
            Result<ExitStatus, SysError>,
        >::Done(Ok(ExitStatus::Signaled(signal))),
        reply.ret == 0 <==> looked == Step::<Result<Option<ExitStatus>, SysError>>::Done(Ok(None)),
        looked is Retry <==> reply.ret < 0 && reply.code == 4,
        waited is Retry <==> reply.ret < 0 && reply.code == 4,
        looked matches Step::Done(Err(e)) ==> reply.ret < 0 && e->code == reply.code,
        waited matches Step::Done(Err(e)) ==> reply.ret < 0 && e->code == reply.code,
        reply.ret < 0 && reply.code != 4 ==> (looked matches Step::Done(Err(_))) && (waited
            matches Step::Done(Err(_))),
{
    law_exit_codes_are_reported(code, false, 0);
    law_signals_are_reported(signal, false, 0);
}

/// A handle is of the process that it was made for, and the group of a process is
/// addressed by the number that makes zero with its own.
pub proof fn law_handles_are_of_their_process(pid: i32, made: Process, read: i32, group: i32)
    requires
        pid > i32::MIN,
        call_ensures(Process::new, (pid,), made),
        call_ensures(Process::pid, (&made,), read),
        call_ensures(Process::group, (&made,), group),
    ensures
        read == pid,
        group + pid == 0,
{
}

} // verus!
