//! Which descriptors a child process closes before it runs its program.

use vstd::prelude::*;
use vstd::utf8::*;
use crate::spawn::pipes::Pipes;
use crate::text;
use crate::text::parse_i32;

verus! {

/// The most descriptors that are set aside as dealt with.
pub const HANDLED_CAPACITY: usize = 8;

#[verifier::external_type_specification]
#[verifier::external_body]
#[verifier::reject_recursive_types(T)]
pub struct ExArrayVec<T, const CAP: usize>(arrayvec::ArrayVec<T, CAP>);

/// What an `arrayvec::ArrayVec` of eight holds, in order.
pub uninterp spec fn held(v: arrayvec::ArrayVec<i32, 8>) -> Seq<i32>;

/// `arrayvec::ArrayVec::new`: it holds nothing.
#[verifier::external_body]
fn no_descriptors() -> (r: arrayvec::ArrayVec<i32, 8>)
    ensures
        held(r) == Seq::<i32>::empty(),
{
    arrayvec::ArrayVec::new()
}

/// `arrayvec::ArrayVec::try_push`: with room left the element goes to the end,
/// and without it nothing changes and the call fails.
#[verifier::external_body]
fn try_push(v: &mut arrayvec::ArrayVec<i32, 8>, fd: i32) -> (r: bool)
    ensures
        r == (held(*old(v)).len() < HANDLED_CAPACITY),
        held(*final(v)) == (if r {
            held(*old(v)).push(fd)
        } else {
            held(*old(v))
        }),
{
    v.try_push(fd).is_ok()
}

/// `arrayvec::ArrayVec::as_slice`: the elements, in order.
#[verifier::external_body]
fn as_slice(v: &arrayvec::ArrayVec<i32, 8>) -> (r: &[i32])
    ensures
        r@ == held(*v),
{
    v.as_slice()
}

/// The one end, where it is there.
pub open spec fn end(fd: Option<i32>) -> Seq<i32> {
    match fd {
        Some(fd) => seq![fd],
        None => seq![],
    }
}

/// All ends of the pipes.
pub open spec fn ends(p: Pipes<i32>) -> Seq<i32> {
    end(p.stdin_r) + end(p.stdin_w) + end(p.stdout_r) + end(p.stdout_w) + end(p.stderr_r) + end(
        p.stderr_w,
    )
}

/// Sets `fd` aside, where it is there.
fn set_aside(v: &mut arrayvec::ArrayVec<i32, 8>, fd: Option<i32>)
    requires
        held(*old(v)).len() < HANDLED_CAPACITY,
    ensures
        held(*final(v)) == held(*old(v)) + end(fd),
{
    if let Some(fd) = fd {
        let pushed: bool = try_push(v, fd);
        assert(pushed);
        assert(held(*old(v)).push(fd) =~= held(*old(v)) + end(Some(fd)));
    } else {
        assert(held(*old(v)) =~= held(*old(v)) + end(None));
    }
}

/// The descriptors that the plan for a child deals with by name: the ends of its
/// pipes.
pub fn handled_fds(p: &Pipes<i32>) -> (r: arrayvec::ArrayVec<i32, 8>)
    ensures
        held(r) == ends(*p),
{
    let mut handled = no_descriptors();
    set_aside(&mut handled, p.stdin_r);
    set_aside(&mut handled, p.stdin_w);
    set_aside(&mut handled, p.stdout_r);
    set_aside(&mut handled, p.stdout_w);
    set_aside(&mut handled, p.stderr_r);
    set_aside(&mut handled, p.stderr_w);
    assert(held(handled) =~= ends(*p));
    handled
}

/// Tells whether `fd` is among those set aside.
fn is_handled(handled: &arrayvec::ArrayVec<i32, 8>, fd: i32) -> (r: bool)
    ensures
        r == held(*handled).contains(fd),
{
    let all: &[i32] = as_slice(handled);
    let mut i: usize = 0;
    while i < all.len()
        invariant
            all@ == held(*handled),
            i <= all@.len(),
            forall|j: int| 0 <= j < i ==> all@[j] != fd,
        decreases all@.len() - i,
    {
        if all[i] == fd {
            assert(all@[i as int] == fd);
            return true;
        }
        i = i + 1;
    }
    false
}

/// The descriptor that an entry of `/proc/self/fd` names, where a new child
/// started by `posix_spawn` is to close it: any but the standard streams, the
/// one that lists the directory and those set aside.
pub open spec fn closed_in_child(name: Seq<u8>, dir_fd: i32, handled: Seq<i32>) -> Option<i32> {
    match text::i32_of(name) {
        Some(fd) if fd > 2 && fd != dir_fd && !handled.contains(fd) => Some(fd),
        _ => None,
    }
}

/// The descriptor that the directory entry calls for closing in the child.
pub fn closes_in_child(
    name: &[u8],
    dir_fd: i32,
    handled: &arrayvec::ArrayVec<i32, 8>,
) -> (r: Option<i32>)
    ensures
        r == closed_in_child(name@, dir_fd, held(*handled)),
{
    if let Some(fd) = parse_i32(name) {
        if fd > 2 && fd != dir_fd && !is_handled(handled, fd) {
            return Some(fd);
        }
    }
    None
}

/// The descriptor that an entry of `/proc/self/fd` names, where a forked child
/// is to close it: any but the standard streams, the one to keep and the one
/// that lists the directory.
pub open spec fn closed_by_fork(name: Seq<u8>, keep: Option<i32>, dir_fd: i32) -> Option<i32> {
    match text::i32_of(name) {
        Some(fd) if fd > 2 && keep != Some(fd) && fd != dir_fd => Some(fd),
        _ => None,
    }
}

/// The descriptor that the directory entry calls for closing in a forked child.
pub fn closes_in_fork(name: &[u8], keep: Option<i32>, dir_fd: i32) -> (r: Option<i32>)
    ensures
        r == closed_by_fork(name@, keep, dir_fd),
{
    if let Some(fd) = parse_i32(name) {
        let kept: bool = match keep {
            Some(k) => k == fd,
            None => false,
        };
        if fd > 2 && !kept && fd != dir_fd {
            return Some(fd);
        }
    }
    None
}

/// The ranges of descriptors, both ends included, that a forked child asks the
/// kernel to close: all from 3 on, around the one to keep.
pub open spec fn ranges(keep: Option<i32>) -> Seq<(u32, u32)> {
    match keep {
        Some(fd) => {
            let below = if fd - 1 > 2 {
                (fd - 1) as u32
            } else {
                2u32
            };
            seq![(3u32, below), ((fd + 1) as i32 as u32, u32::MAX)]
        },
        None => seq![(3u32, u32::MAX)],
    }
}

/// The ranges of descriptors to ask the kernel to close.
pub fn close_ranges(keep: Option<i32>) -> (r: Vec<(u32, u32)>)
    requires
        keep matches Some(fd) ==> i32::MIN < fd < i32::MAX,
    ensures
        r@ == ranges(keep),
{
    let mut out: Vec<(u32, u32)> = Vec::new();
    match keep {
        Some(fd) => {
            let below: u32 = if fd - 1 > 2 {
                (fd - 1) as u32
            } else {
                2
            };
            out.push((3, below));
            out.push(((fd + 1) as u32, 0xffff_ffff));
        },
        None => {
            out.push((3, 0xffff_ffff));
        },
    }
    assert(out@ =~= ranges(keep));
    out
}

/// Tells whether the kernel closed all ranges, given what each call returned.
/// Where it did not, the child goes through `/proc/self/fd` instead.
pub fn close_range_fast(replies: &[isize]) -> (r: bool)
    ensures
        r == forall|i: int| 0 <= i < replies@.len() ==> #[trigger] replies@[i] == 0,
{
    let mut i: usize = 0;
    while i < replies.len()
        invariant
            i <= replies@.len(),
            forall|j: int| 0 <= j < i ==> #[trigger] replies@[j] == 0,
        decreases replies@.len() - i,
    {
        if replies[i] != 0 {
            assert(replies@[i as int] != 0);
            return false;
        }
        i = i + 1;
    }
    true
}

/// Whether one of the ranges holds `fd`.
pub open spec fn in_ranges(all: Seq<(u32, u32)>, fd: int) -> bool {
    exists|i: int| 0 <= i < all.len() && (#[trigger] all[i]).0 <= fd <= all[i].1
}

/// The ranges hold every descriptor from 3 on but the one to keep, and neither
/// that one nor a standard stream.
pub proof fn law_ranges_spare_only_the_kept(keep: Option<i32>, fd: int)
    requires
        0 <= fd <= i32::MAX,
        keep matches Some(k) ==> 2 <= k < i32::MAX,
    ensures
        in_ranges(ranges(keep), fd) <==> fd > 2 && keep != Some(fd as i32),
{
    let all = ranges(keep);
    if fd > 2 && keep != Some(fd as i32) {
        match keep {
            Some(k) => {
                if fd < k {
                    assert(all[0].0 <= fd <= all[0].1);
                } else {
                    assert(all[1].0 <= fd <= all[1].1);
                }
            },
            None => {
                assert(all[0].0 <= fd <= all[0].1);
            },
        }
    }
}

/// Going through the directory closes what the ranges hold: of the descriptors
/// that it lists, other than the one that lists it, exactly the same.
pub proof fn law_listing_closes_the_ranges(name: Seq<u8>, keep: Option<i32>, dir_fd: i32)
    requires
        keep matches Some(k) ==> 2 <= k < i32::MAX,
        text::i32_of(name) matches Some(fd) && 0 <= fd && fd != dir_fd,
    ensures
        closed_by_fork(name, keep, dir_fd) is Some <==> in_ranges(
            ranges(keep),
            text::i32_of(name)->0 as int,
        ),
{
    law_ranges_spare_only_the_kept(keep, text::i32_of(name)->0 as int);
}

/// A descriptor that is set aside is an end of some pipe, and each end is.
pub proof fn law_ends_are_set_aside(p: Pipes<i32>, fd: i32)
    ensures
        ends(p).contains(fd) <==> p.stdin_r == Some(fd) || p.stdin_w == Some(fd) || p.stdout_r
            == Some(fd) || p.stdout_w == Some(fd) || p.stderr_r == Some(fd) || p.stderr_w == Some(
            fd,
        ),
{
    let a = end(p.stdin_r);
    let b = a + end(p.stdin_w);
    let c = b + end(p.stdout_r);
    let d = c + end(p.stdout_w);
    let e = d + end(p.stderr_r);
    let f = e + end(p.stderr_w);
    assert(f == ends(p));
    if p.stdin_r == Some(fd) {
        assert(f[0] == fd);
    } else if p.stdin_w == Some(fd) {
        assert(f[a.len() as int] == fd);
    } else if p.stdout_r == Some(fd) {
        assert(f[b.len() as int] == fd);
    } else if p.stdout_w == Some(fd) {
        assert(f[c.len() as int] == fd);
    } else if p.stderr_r == Some(fd) {
        assert(f[d.len() as int] == fd);
    } else if p.stderr_w == Some(fd) {
        assert(f[e.len() as int] == fd);
    }
}

/// A listed descriptor is closed under its own number, unless it is a standard
/// stream, the one that lists the directory or one to be spared; and what is no
/// number names no descriptor.
pub proof fn law_listed_descriptors_are_closed(
    fd: i32,
    name: Seq<u8>,
    dir_fd: i32,
    handled: Seq<i32>,
    keep: Option<i32>,
)
    ensures
        ({
            let listed = encode_utf8(text::decimal(fd as int));
            &&& closed_in_child(listed, dir_fd, handled) == if fd >= 3 && fd != dir_fd
                && !handled.contains(fd) {
                Some(fd)
            } else {
                None
            }
            &&& closed_by_fork(listed, keep, dir_fd) == if fd >= 3 && fd != dir_fd && keep != Some(
                fd,
            ) {
                Some(fd)
            } else {
                None
            }
        }),
        text::i32_of(name) is None ==> closed_in_child(name, dir_fd, handled) is None
            && closed_by_fork(name, keep, dir_fd) is None,
{
    text::law_decimal_is_read_back(fd);
}

/// The ranges hold what lies above the descriptor to keep, and what lies between
/// the standard streams and it; without one to keep, all above the standard
/// streams.
pub proof fn law_what_the_ranges_hold(k: i32, fd: int)
    requires
        0 <= k < i32::MAX,
        0 <= fd <= u32::MAX,
    ensures
        in_ranges(ranges(Some(k)), fd) <==> fd > k || 3 <= fd < k,
        in_ranges(ranges(None), fd) <==> fd >= 3,
        ranges(Some(k)).len() == 2,
        ranges(None).len() == 1,
{
    let around = ranges(Some(k));
    if fd > k {
        assert(around[1].0 <= fd <= around[1].1);
    } else if 3 <= fd < k {
        assert(around[0].0 <= fd <= around[0].1);
    }
    let all = ranges(None);
    if fd >= 3 {
        assert(all[0].0 <= fd <= all[0].1);
    }
}

} // verus!
