//! Descriptor numbers, and what the calls made on them reply.

use vstd::prelude::*;
use crate::spawn::error;
use crate::spawn::error::{errno, syscall_result, Reply, Step, SysError, EAGAIN, EINTR, EWOULDBLOCK};

verus! {

/// Flag of a descriptor that a new program does not inherit.
pub const FD_CLOEXEC: i32 = 1;

/// The number of an open descriptor.
///
/// It is never negative, and it is not copied: whoever holds it is the one to
/// close the descriptor.
#[derive(Debug)]
pub struct Fd {
    fd: i32,
}

/// What a reply to a transfer (`read` or `write`) means: interrupted calls are
/// made again, a call that would block moved nothing, and any other failure is
/// that of `op`.
pub open spec fn transfer_outcome(
    r: Step<Result<Option<usize>, SysError>>,
    reply: Reply,
    op: Seq<char>,
) -> bool {
    if reply.ret >= 0 {
        r == Step::<Result<Option<usize>, SysError>>::Done(Ok(Some(reply.ret as usize)))
    } else if reply.code == EINTR {
        r is Retry
    } else if reply.code == EAGAIN || reply.code == EWOULDBLOCK {
        r == Step::<Result<Option<usize>, SysError>>::Done(Ok(None))
    } else {
        r matches Step::Done(done) && error::failed_with(done, reply.code, op)
    }
}

/// Decides what a reply to a transfer means.
fn transfer_step(reply: Reply, op: &str) -> (r: Step<Result<Option<usize>, SysError>>)
    ensures
        transfer_outcome(r, reply, op@),
{
    if reply.ret < 0 {
        if reply.code == EINTR {
            return Step::Retry;
        }
        if reply.code == EAGAIN || reply.code == EWOULDBLOCK {
            return Step::Done(Ok(None));
        }
        return Step::Done(Err(SysError::sys(reply.code, op)));
    }
    Step::Done(Ok(Some(reply.ret as usize)))
}

impl Fd {
    #[verifier::type_invariant]
    spec fn inv(self) -> bool {
        self.fd >= 0
    }

    /// The descriptor's number.
    pub closed spec fn number(&self) -> i32 {
        self.fd
    }

    /// Takes `fd` for an open descriptor, or fails with `code` where it is
    /// negative.
    pub fn checked(fd: i32, code: i32, op: &str) -> (r: Result<Self, SysError>)
        ensures
            fd >= 0 ==> (r matches Ok(d) && d.number() == fd),
            fd < 0 ==> error::failed_with(r, code, op@),
    {
        if fd < 0 {
            Err(SysError::sys(code, op))
        } else {
            Ok(Fd { fd })
        }
    }

    /// Takes `fd` for an open descriptor.
    ///
    /// # Errors
    /// Where `fd` is negative, with the thread's last error number.
    pub fn new(fd: i32, op: &str) -> (r: Result<Self, SysError>)
        ensures
            fd >= 0 ==> (r matches Ok(d) && d.number() == fd),
            fd < 0 ==> (r matches Err(e) && error::is_last_error(e@.0) && e@.1 == op@),
    {
        if fd < 0 {
            Self::checked(fd, errno(), op)
        } else {
            Ok(Fd { fd })
        }
    }

    /// The descriptor's number.
    pub fn raw(&self) -> (r: i32)
        ensures
            r == self.number(),
            r >= 0,
    {
        proof {
            use_type_invariant(&*self);
        }
        self.fd
    }

    /// Decides what a reply to `dup2` from this descriptor means.
    pub fn dup2(&self, reply: Reply) -> (r: Step<Result<(), SysError>>)
        ensures
            reply.ret < 0 && reply.code == EINTR ==> r is Retry,
            reply.ret == -1 && reply.code != EINTR ==> (r matches Step::Done(done)
                && error::failed_with(done, reply.code, "dup2"@)),
            reply.ret >= 0 || (reply.ret < -1 && reply.code != EINTR) ==> r == Step::<
                Result<(), SysError>,
            >::Done(Ok(())),
    {
        if reply.ret < 0 {
            if reply.code == EINTR {
                return Step::Retry;
            }
            if reply.ret == -1 {
                return Step::Done(syscall_result(-1, reply.code, "dup2"));
            }
        }
        Step::Done(Ok(()))
    }

    /// The status flags to set on this descriptor so that its calls do not
    /// block, given the reply to reading them (`F_GETFL`) and the platform's flag
    /// for that.
    pub fn nonblock_flags(&self, reply: Reply, nonblock: i32) -> (r: Result<i32, SysError>)
        ensures
            reply.ret == -1 ==> error::failed_with(r, reply.code, "fcntl(F_GETFL)"@),
            reply.ret != -1 ==> (r matches Ok(flags) && flags == (reply.ret as i32) | nonblock
                && flags & nonblock == nonblock),
    {
        if reply.ret == -1 {
            return Err(SysError::sys(reply.code, "fcntl(F_GETFL)"));
        }
        let flags: i32 = reply.ret as i32;
        assert((flags | nonblock) & nonblock == nonblock) by (bit_vector);
        Ok(flags | nonblock)
    }

    /// What the reply to setting those flags (`F_SETFL`) means.
    pub fn set_nonblock(&self, reply: Reply) -> (r: Result<(), SysError>)
        ensures
            reply.ret == -1 ==> error::failed_with(r, reply.code, "fcntl(F_SETFL)"@),
            reply.ret != -1 ==> r is Ok,
    {
        if reply.ret == -1 {
            return Err(SysError::sys(reply.code, "fcntl(F_SETFL)"));
        }
        Ok(())
    }

    /// The descriptor flags to set so that a new program does not inherit this
    /// descriptor, given the reply to reading them (`F_GETFD`).
    pub fn cloexec_flags(&self, reply: Reply) -> (r: Result<i32, SysError>)
        ensures
            reply.ret == -1 ==> error::failed_with(r, reply.code, "fcntl(F_GETFD)"@),
            reply.ret != -1 ==> (r matches Ok(flags) && flags == (reply.ret as i32) | FD_CLOEXEC
                && flags & FD_CLOEXEC == FD_CLOEXEC),
    {
        if reply.ret == -1 {
            return Err(SysError::sys(reply.code, "fcntl(F_GETFD)"));
        }
        let flags: i32 = reply.ret as i32;
        assert((flags | 1) & 1 == 1) by (bit_vector);
        Ok(flags | FD_CLOEXEC)
    }

    /// What the reply to setting those flags (`F_SETFD`) means.
    pub fn set_cloexec(&self, reply: Reply) -> (r: Result<(), SysError>)
        ensures
            reply.ret == -1 ==> error::failed_with(r, reply.code, "fcntl(F_SETFD)"@),
            reply.ret != -1 ==> r is Ok,
    {
        if reply.ret == -1 {
            return Err(SysError::sys(reply.code, "fcntl(F_SETFD)"));
        }
        Ok(())
    }

    /// Decides what a reply to reading from this descriptor means: the number
    /// of bytes read, or `None` where the call would block.
    pub fn read(&self, reply: Reply) -> (r: Step<Result<Option<usize>, SysError>>)
        ensures
            transfer_outcome(r, reply, "read"@),
    {
        transfer_step(reply, "read")
    }

    /// Decides what a reply to writing to this descriptor means: the number of
    /// bytes written, or `None` where the call would block.
    pub fn write(&self, reply: Reply) -> (r: Step<Result<Option<usize>, SysError>>)
        ensures
            transfer_outcome(r, reply, "write"@),
    {
        transfer_step(reply, "write")
    }
}

/// A transfer moved as many bytes as the call says, none where it would block,
/// and is made again exactly where it was interrupted; every other failure is
/// reported with its number.
pub proof fn law_transfers_are_judged(
    r: Step<Result<Option<usize>, SysError>>,
    ret: isize,
    code: i32,
    op: Seq<char>,
)
    requires
        transfer_outcome(r, Reply { ret, code }, op),
    ensures
        r is Retry <==> ret < 0 && code == EINTR,
        ret >= 0 ==> (r matches Step::Done(Ok(Some(n))) && n == ret),
        ret < 0 && (code == EAGAIN || code == EWOULDBLOCK) ==> r == Step::<
            Result<Option<usize>, SysError>,
        >::Done(Ok(None)),
        ret < 0 && code != EINTR && code != EAGAIN && code != EWOULDBLOCK ==> (r matches Step::Done(
            Err(e),
        ) && e->code == code && e->op@ == op),
        r matches Step::Done(Ok(Some(n))) ==> ret == n,
{
}

/// A descriptor has the number that it was made with, and one is made exactly
/// where the number is not negative; the failure is that of the call that gave it.
pub proof fn law_descriptors_have_their_number(
    n: i32,
    code: i32,
    op: &str,
    made: Result<Fd, SysError>,
    fd: &Fd,
    read: i32,
)
    requires
        call_ensures(Fd::checked, (n, code, op), made),
        made matches Ok(d) ==> d == *fd && call_ensures(Fd::raw, (fd,), read),
    ensures
        made is Ok <==> n >= 0,
        n >= 0 ==> read == n,
        made matches Err(e) ==> e->code == code && e->op@ == op@,
{
}

/// The flags to set are those that were read and the one to be added, and no
/// others: what was set stays set. Where they could not be read, there are none.
pub proof fn law_flags_are_added(
    fd: &Fd,
    reply: Reply,
    nonblock: i32,
    bit: i32,
    waits: Result<i32, SysError>,
    inherited: Result<i32, SysError>,
)
    requires
        call_ensures(Fd::nonblock_flags, (fd, reply, nonblock), waits),
        call_ensures(Fd::cloexec_flags, (fd, reply), inherited),
    ensures
        waits is Err <==> reply.ret == -1,
        inherited is Err <==> reply.ret == -1,
        waits matches Ok(flags) ==> (flags & bit != 0 <==> (reply.ret as i32) & bit != 0 || nonblock
            & bit != 0),
        inherited matches Ok(flags) ==> (flags & bit != 0 <==> (reply.ret as i32) & bit != 0 || 1i32
            & bit != 0),
        waits matches Err(e) ==> e->code == reply.code,
        inherited matches Err(e) ==> e->code == reply.code,
{
    let read = reply.ret as i32;
    assert((read | nonblock) & bit != 0 <==> read & bit != 0 || nonblock & bit != 0) by (bit_vector);
    assert((read | 1i32) & bit != 0 <==> read & bit != 0 || 1i32 & bit != 0) by (bit_vector);
}

/// A duplication that was interrupted is made again, one that failed is reported,
/// and every other is done.
pub proof fn law_duplications_are_judged(fd: &Fd, reply: Reply, r: Step<Result<(), SysError>>)
    requires
        call_ensures(Fd::dup2, (fd, reply), r),
    ensures
        r is Retry <==> reply.ret < 0 && reply.code == 4,
        r matches Step::Done(Err(e)) ==> reply.ret == -1 && e->code == reply.code,
        reply.ret == -1 && reply.code != 4 ==> (r matches Step::Done(Err(_))),
        reply.ret >= 0 ==> (r matches Step::Done(Ok(_))),
{
}

} // verus!
