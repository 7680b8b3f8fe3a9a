//! Probes of paths, and hints to the page cache.

use vstd::prelude::*;
use vstd::string::*;
use crate::spawn::error;
use crate::spawn::error::{syscall_result, Reply, Step, SysError, EINTR, EINVAL};
use crate::sys::ctext::CText;
use crate::sys::procfs;
use crate::sys::procfs::proc_dir;
use crate::text;

verus! {

/// The number of the readahead call on 64-bit ARM under Android.
pub const ANDROID_AARCH64_READAHEAD: i64 = 213;

/// Whether a path was found, given what the call that looked for it returned. A
/// path that cannot be passed to the kernel is not.
pub open spec fn path_found(path: Seq<char>, ret: i32) -> bool {
    !path.contains('\0') && ret == 0
}

/// Tells whether a path exists, links followed, given what the call that checked
/// its access returned. A path that cannot be passed to the kernel does not.
pub fn path_exists(path: &str, ret: i32) -> (r: bool)
    ensures
        r == path_found(path@, ret),
{
    match CText::new(path) {
        Some(_) => ret == 0,
        None => false,
    }
}

/// Tells whether a path exists, even as a dangling link, given what the call
/// that looked at the link itself returned.
pub fn path_lstat_exists(path: &str, ret: i32) -> (r: bool)
    ensures
        r == path_found(path@, ret),
{
    match CText::new(path) {
        Some(_) => ret == 0,
        None => false,
    }
}

/// What exists with links followed is there without following them, as long as
/// the kernel finds the link itself wherever it finds what the link leads to. A
/// dangling link is there but does not exist. And a path with a NUL in it neither
/// exists nor is there, whatever the kernel might have said.
pub proof fn law_what_exists_is_there(path: Seq<char>, access: i32, lstat: i32)
    requires
        access == 0 ==> lstat == 0,
    ensures
        path_found(path, access) ==> path_found(path, lstat),
        !path.contains('\0') && lstat == 0 && access != 0 ==> path_found(path, lstat)
            && !path_found(path, access),
        path.contains('\0') || lstat != 0 ==> !path_found(path, access) && !path_found(
            path,
            lstat,
        ),
{
}

/// Whether `r` is the owner of a path, given the reply to looking it up and the
/// owner that came with it.
pub open spec fn owner_is(
    r: Result<u32, SysError>,
    path: Seq<u8>,
    reply: Reply,
    uid: u32,
    op: Seq<char>,
) -> bool {
    if path.contains(0u8) {
        error::failed_with(r, EINVAL, op)
    } else if reply.ret == -1 {
        error::failed_with(r, reply.code, op)
    } else {
        r == Ok::<u32, SysError>(uid)
    }
}

fn stat_uid(path: &[u8], reply: Reply, uid: u32, op: &str) -> (r: Result<u32, SysError>)
    ensures
        owner_is(r, path@, reply, uid, op@),
{
    match CText::from_bytes(path) {
        Some(_) => {},
        None => return Err(SysError::sys(EINVAL, op)),
    }
    if reply.ret == -1 {
        return Err(SysError::sys(reply.code, op));
    }
    Ok(uid)
}

/// The owning UID of a path, given the reply to looking it up and the owner that
/// came with it.
///
/// # Errors
/// Where the path holds a NUL, or the lookup failed.
pub fn path_uid(path: &[u8], reply: Reply, uid: u32) -> (r: Result<u32, SysError>)
    ensures
        owner_is(r, path@, reply, uid, "stat"@),
{
    stat_uid(path, reply, uid, "stat")
}

/// A number in decimal holds no NUL.
proof fn lemma_digits_no_nul(n: nat)
    ensures
        !text::digits(n).contains('\0'),
    decreases n,
{
    if n >= 10 {
        lemma_digits_no_nul(n / 10);
        let shorter = text::digits(n / 10);
        let last = text::digit_char((n % 10) as int);
        assert(last != '\0');
        assert forall|i: int| 0 <= i < text::digits(n).len() implies text::digits(n)[i] != '\0' by {
            if i < shorter.len() {
                assert(text::digits(n)[i] == shorter[i]);
            }
        }
    } else {
        assert(text::digit_char(n as int) != '\0');
    }
}

/// The path of a process's directory holds no NUL.
proof fn lemma_proc_dir_no_nul(pid: int)
    ensures
        !procfs::proc_dir_text(pid).contains('\0'),
{
    reveal_strlit("/proc/");
    lemma_digits_no_nul(if pid < 0 {
        (-pid) as nat
    } else {
        pid as nat
    });
    let path = procfs::proc_dir_text(pid);
    let number = text::decimal(pid);
    assert forall|i: int| 0 <= i < number.len() implies number[i] != '\0' by {
        if pid < 0 && i > 0 {
            assert(number[i] == text::digits((-pid) as nat)[i - 1]);
        }
    }
    assert forall|i: int| 0 <= i < path.len() implies path[i] != '\0' by {
        if i >= 6 {
            assert(path[i] == number[i - 6]);
        }
    }
}

/// The owning UID of a process's directory under `/proc`, given the reply to
/// looking it up and the owner that came with it.
///
/// # Errors
/// Where the lookup failed. A process may be gone at any time.
pub fn proc_uid(pid: i32, reply: Reply, uid: u32) -> (r: Result<u32, SysError>)
    ensures
        reply.ret == -1 ==> error::failed_with(r, reply.code, "stat"@),
        reply.ret != -1 ==> r == Ok::<u32, SysError>(uid),
{
    let path: String = proc_dir(pid);
    proof {
        lemma_proc_dir_no_nul(pid as int);
        crate::sys::ctext::lemma_encoded_zero(path@);
    }
    stat_uid(path.as_str().as_bytes(), reply, uid, "stat")
}

/// What to ask the kernel to read ahead.
#[derive(Clone, Copy, Debug, PartialEq, Eq, Structural)]
pub struct ReadaheadRequest {
    /// Where to start.
    pub offset: i64,
    /// How much to read.
    pub count: usize,
}

/// What to ask the kernel to read ahead for the range at `offset` of `len`
/// bytes: no more than it takes in one call.
///
/// # Errors
/// Where the offset is beyond what a file can have.
pub fn readahead(offset: u64, len: usize) -> (r: Result<ReadaheadRequest, SysError>)
    ensures
        offset > i64::MAX ==> error::failed_with(r, EINVAL, "readahead"@),
        offset <= i64::MAX ==> (r matches Ok(request) && request.offset == offset && request.count
            == (if len <= u32::MAX {
            len as int
        } else {
            u32::MAX as int
        })),
{
    if offset > 0x7fff_ffff_ffff_ffff {
        return Err(SysError::sys(EINVAL, "readahead"));
    }
    let count: usize = if len <= 0xffff_ffff {
        len
    } else {
        0xffff_ffff
    };
    Ok(ReadaheadRequest { offset: offset as i64, count })
}

/// Decides what a reply to that request means: an interrupted call is made
/// again.
pub fn readahead_step(reply: Reply) -> (r: Step<Result<(), SysError>>)
    ensures
        reply.ret == -1 && reply.code == EINTR ==> r is Retry,
        reply.ret == -1 && reply.code != EINTR ==> (r matches Step::Done(done)
            && error::failed_with(done, reply.code, "readahead"@)),
        reply.ret != -1 ==> r == Step::<Result<(), SysError>>::Done(Ok(())),
{
    if reply.ret == -1 {
        if reply.code == EINTR {
            return Step::Retry;
        }
        return Step::Done(syscall_result(-1, reply.code, "readahead"));
    }
    Step::Done(Ok(()))
}

/// The number of the readahead call, given the one that is defined for the
/// platform.
pub fn readahead_syscall_number(android: bool, aarch64: bool, defined: i64) -> (r: i64)
    ensures
        r == (if android && aarch64 {
            ANDROID_AARCH64_READAHEAD
        } else {
            defined
        }),
{
    if android && aarch64 {
        ANDROID_AARCH64_READAHEAD
    } else {
        defined
    }
}

/// The owner is what the lookup gave, exactly where the path could be looked up
/// and the lookup did not fail. A path with a zero byte in it is an invalid
/// argument (22), and a failed lookup is reported with its own number.
pub proof fn law_owners_are_what_the_lookup_gave(
    r: Result<u32, SysError>,
    path: Seq<u8>,
    reply: Reply,
    uid: u32,
    op: Seq<char>,
)
    requires
        owner_is(r, path, reply, uid, op),
    ensures
        r is Ok <==> reply.ret != -1 && forall|i: int| 0 <= i < path.len() ==> #[trigger] path[i] != 0,
        r matches Ok(owner) ==> owner == uid,
        r matches Err(e) ==> e->op@ == op && e->code == if path.contains(0u8) {
            22i32
        } else {
            reply.code
        },
{
    if path.contains(0u8) {
        let i = choose|i: int| 0 <= i < path.len() && path[i] == 0u8;
        assert(path[i] == 0);
    } else {
        assert forall|i: int| 0 <= i < path.len() implies #[trigger] path[i] != 0 by {
            assert(path.contains(path[i]));
        }
    }
}

/// A path is found exactly where it can be passed to the kernel and the kernel
/// returns 0.
pub proof fn law_found_means_zero(path: Seq<char>, ret: i32, i: int)
    ensures
        path_found(path, ret) ==> ret == 0,
        path_found(path, ret) && 0 <= i < path.len() ==> path[i] != '\0',
        !path.contains('\0') ==> path_found(path, 0),
{
}

/// What is read ahead starts where it was asked to and is all that was asked for,
/// or as much of it as one call takes; only an offset that no file can have is
/// refused, as an invalid argument (22).
pub proof fn law_readahead_stays_within_the_range(
    offset: u64,
    len: usize,
    r: Result<ReadaheadRequest, SysError>,
)
    requires
        call_ensures(readahead, (offset, len), r),
    ensures
        r is Err <==> offset >= 0x8000_0000_0000_0000,
        r matches Err(e) ==> e->code == 22,
        r matches Ok(request) ==> request.offset == offset && request.count <= len,
        r matches Ok(request) ==> request.count == len || request.count == 0xffff_ffff,
        r matches Ok(request) ==> request.count <= 0xffff_ffff,
{
}

/// A readahead that was interrupted is made again, one that failed is reported
/// with its number, and every other is done.
pub proof fn law_readaheads_are_judged(reply: Reply, r: Step<Result<(), SysError>>)
    requires
        call_ensures(readahead_step, (reply,), r),
    ensures
        r is Retry <==> reply.ret == -1 && reply.code == 4,
        r matches Step::Done(Err(e)) ==> reply.ret == -1 && e->code == reply.code,
        reply.ret == -1 && reply.code != 4 ==> (r matches Step::Done(Err(_))),
        reply.ret != -1 ==> (r matches Step::Done(Ok(_))),
{
}

/// The number of the readahead call is the platform's own, but for 64-bit ARM
/// under Android, where it is 213.
pub proof fn law_readahead_has_its_number(android: bool, aarch64: bool, defined: i64, r: i64)
    requires
        call_ensures(readahead_syscall_number, (android, aarch64, defined), r),
    ensures
        android && aarch64 ==> r == 213,
        !android || !aarch64 ==> r == defined,
{
}

} // verus!
