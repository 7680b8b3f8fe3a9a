//! The reactor: which token stands for which descriptor, and what is ready.

use vstd::prelude::*;
use crate::reactor::fd::Fd;
use crate::spawn::error;
use crate::spawn::error::{syscall_result, Reply, SysError, EINTR};

verus! {

/// The descriptor can be read.
pub const EPOLLIN: u32 = 0x1;
/// The descriptor can be written.
pub const EPOLLOUT: u32 = 0x4;
/// The descriptor is in error.
pub const EPOLLERR: u32 = 0x8;
/// The other end hung up.
pub const EPOLLHUP: u32 = 0x10;
/// Report changes only.
pub const EPOLLET: u32 = 0x8000_0000;

/// An opaque token that stands for a registered descriptor.
#[derive(Clone, Copy, Debug, PartialEq, Eq, Hash, Structural)]
pub struct Token(u64);

impl Token {
    pub closed spec fn value(&self) -> u64 {
        self.0
    }

    /// The token with the given value.
    pub fn new(val: u64) -> (r: Self)
        ensures
            r.value() == val,
    {
        Token(val)
    }

    /// The token's value.
    pub fn val(&self) -> (r: u64)
        ensures
            r == self.value(),
    {
        self.0
    }
}

/// Two tokens of one value are the same token.
pub proof fn law_token_is_its_value(a: Token, b: Token)
    ensures
        a.value() == b.value() <==> a == b,
{
}

/// A readiness event.
#[derive(Clone, Copy, Debug, PartialEq, Eq, Structural)]
pub struct Event {
    /// Token of the ready descriptor.
    pub token: Token,
    /// Descriptor is ready for reading.
    pub readable: bool,
    /// Descriptor is ready for writing.
    pub writable: bool,
    /// The descriptor is in error, or its other end hung up.
    ///
    /// Such an event is both readable and writable, so that whoever handles it
    /// drains the descriptor.
    pub error: bool,
}

/// An event as the kernel reports it.
#[derive(Clone, Copy, Debug, PartialEq, Eq, Structural)]
pub struct RawEvent {
    /// The conditions that hold (`EPOLLIN` and its kin).
    pub events: u32,
    /// The value that the descriptor was registered with.
    pub data: u64,
}

/// Whether `event` says what `raw` reports.
pub open spec fn decodes(event: Event, raw: RawEvent) -> bool {
    let error = raw.events & (EPOLLERR | EPOLLHUP) != 0;
    &&& event.token.value() == raw.data
    &&& event.error == error
    &&& event.readable == (raw.events & EPOLLIN != 0 || error)
    &&& event.writable == (raw.events & EPOLLOUT != 0 || error)
}

impl Event {
    /// Decodes an event as the kernel reports it.
    pub fn decode(raw: RawEvent) -> (r: Self)
        ensures
            decodes(r, raw),
    {
        let error: bool = raw.events & (EPOLLERR | EPOLLHUP) != 0;
        Event {
            token: Token::new(raw.data),
            readable: raw.events & EPOLLIN != 0 || error,
            writable: raw.events & EPOLLOUT != 0 || error,
            error,
        }
    }
}

/// What to register a descriptor with.
#[derive(Clone, Copy, Debug, PartialEq, Eq, Structural)]
pub struct Registration {
    /// The token that stands for the descriptor.
    pub token: Token,
    /// The conditions to report.
    pub events: u32,
}

/// The conditions to report for a descriptor: changes only, of the two sides
/// asked for.
pub open spec fn interest(readable: bool, writable: bool) -> u32 {
    match (readable, writable) {
        (false, false) => EPOLLET,
        (true, false) => EPOLLET | EPOLLIN,
        (false, true) => EPOLLET | EPOLLOUT,
        (true, true) => EPOLLET | EPOLLIN | EPOLLOUT,
    }
}

/// A lightweight epoll reactor using edge-triggered monitoring.
///
/// Because it reports changes only, whoever handles an event must drain the
/// descriptor until it would block.
#[derive(Debug)]
pub struct Reactor {
    epfd: i32,
    next_token: u64,
    /// Token of the signal descriptor, once there is one.
    pub sigchld_token: Option<Token>,
    /// Token of the inotify descriptor, once there is one.
    pub inotify_token: Option<Token>,
}

/// Whether adding a descriptor turns `pre` into `post` and asks for `reg`.
pub open spec fn adds(
    pre: Reactor,
    post: Reactor,
    reg: Registration,
    readable: bool,
    writable: bool,
) -> bool {
    &&& reg.token.value() == pre.upcoming()
    &&& reg.events == interest(readable, writable)
    &&& post.upcoming() == pre.upcoming() + 1
    &&& post.epoll() == pre.epoll()
    &&& post.signal_token() == pre.signal_token()
    &&& post.watch_token() == pre.watch_token()
}

/// What a poll came to, given the reply and what the kernel reported with it:
/// the events that were received stand behind what the buffer held before.
pub open spec fn polled(
    r: Result<usize, SysError>,
    before: Seq<Event>,
    after: Seq<Event>,
    max_events: usize,
    ready: Seq<RawEvent>,
    reply: Reply,
) -> bool {
    if max_events > 0 && reply.ret > 0 {
        &&& r == Ok::<usize, SysError>(reply.ret as usize)
        &&& after.len() == before.len() + reply.ret
        &&& after.take(before.len() as int) == before
        &&& forall|i: int|
            0 <= i < reply.ret ==> decodes(after[before.len() + i], #[trigger] ready[i])
    } else {
        &&& after == before
        &&& if max_events > 0 && reply.ret < 0 && reply.code != EINTR {
            error::failed_with(r, reply.code, "epoll_wait"@)
        } else {
            r == Ok::<usize, SysError>(0)
        }
    }
}

impl Reactor {
    /// The value of the next token.
    pub closed spec fn upcoming(&self) -> u64 {
        self.next_token
    }

    /// The number of the epoll descriptor.
    pub closed spec fn epoll(&self) -> i32 {
        self.epfd
    }

    /// The token of the signal descriptor.
    pub closed spec fn signal_token(&self) -> Option<Token> {
        self.sigchld_token
    }

    /// The token of the inotify descriptor.
    pub closed spec fn watch_token(&self) -> Option<Token> {
        self.inotify_token
    }

    /// The reactor on a new epoll descriptor, given the reply to making one.
    pub fn new(reply: Reply) -> (r: Result<Self, SysError>)
        ensures
            reply.ret == -1 ==> error::failed_with(r, reply.code, "epoll_create1"@),
            reply.ret != -1 ==> (r matches Ok(reactor) && reactor.epoll() == reply.ret as i32
                && reactor.upcoming() == 1 && reactor.signal_token() is None
                && reactor.watch_token() is None),
    {
        if reply.ret == -1 {
            return Err(SysError::sys(reply.code, "epoll_create1"));
        }
        Ok(
            Reactor {
                epfd: reply.ret as i32,
                next_token: 1,
                sigchld_token: None,
                inotify_token: None,
            },
        )
    }

    /// The value of the next token.
    pub fn next_token(&self) -> (r: u64)
        ensures
            r == self.upcoming(),
    {
        self.next_token
    }

    /// The number of the epoll descriptor.
    pub fn fd(&self) -> (r: i32)
        ensures
            r == self.epoll(),
    {
        self.epfd
    }

    /// The token of the signal descriptor, once there is one.
    pub fn sigchld_token(&self) -> (r: Option<Token>)
        ensures
            r == self.signal_token(),
    {
        self.sigchld_token
    }

    /// The token of the inotify descriptor, once there is one.
    pub fn inotify_token(&self) -> (r: Option<Token>)
        ensures
            r == self.watch_token(),
    {
        self.inotify_token
    }

    /// Assigns the next token to a descriptor, and says what to register it
    /// with. The token is used up, whatever becomes of the registration.
    pub fn add(&mut self, readable: bool, writable: bool) -> (r: Registration)
        requires
            old(self).upcoming() < u64::MAX,
        ensures
            adds(*old(self), *final(self), r, readable, writable),
    {
        let token = Token::new(self.next_token);
        self.next_token = self.next_token + 1;
        let mut events: u32 = EPOLLET;
        if readable {
            events = events | EPOLLIN;
        }
        if writable {
            events = events | EPOLLOUT;
        }
        Registration { token, events }
    }

    /// What the reply to a registration means.
    pub fn add_with_token(reg: Registration, reply: Reply) -> (r: Result<Token, SysError>)
        ensures
            reply.ret == -1 ==> error::failed_with(r, reply.code, "epoll_ctl_add"@),
            reply.ret != -1 ==> r == Ok::<Token, SysError>(reg.token),
    {
        if reply.ret == -1 {
            return Err(SysError::sys(reply.code, "epoll_ctl_add"));
        }
        Ok(reg.token)
    }

    /// The new inotify descriptor, given what making it returned and the error
    /// number after it.
    pub fn inotify_fd(ret: i32, code: i32) -> (r: Result<Fd, SysError>)
        ensures
            ret == -1 ==> error::failed_with(r, code, "inotify_init1"@),
            ret < -1 ==> error::failed_with(r, code, "inotify"@),
            ret >= 0 ==> (r matches Ok(fd) && fd.number() == ret),
    {
        match syscall_result(ret, code, "inotify_init1") {
            Ok(()) => Fd::checked(ret, code, "inotify"),
            Err(e) => Err(e),
        }
    }

    /// What the reply to blocking SIGCHLD means, which is to come through the
    /// signal descriptor instead.
    pub fn block_sigchld(reply: Reply) -> (r: Result<(), SysError>)
        ensures
            reply.ret == -1 ==> error::failed_with(r, reply.code, "sigprocmask"@),
            reply.ret != -1 ==> r is Ok,
    {
        if reply.ret == -1 {
            return Err(SysError::sys(reply.code, "sigprocmask"));
        }
        Ok(())
    }

    /// The new signal descriptor, given what making it returned and the error
    /// number after it.
    pub fn signal_fd(ret: i32, code: i32) -> (r: Result<Fd, SysError>)
        ensures
            ret < 0 ==> error::failed_with(r, code, "signalfd"@),
            ret >= 0 ==> (r matches Ok(fd) && fd.number() == ret),
    {
        match syscall_result(ret, code, "signalfd") {
            Ok(()) => Fd::checked(ret, code, "signalfd"),
            Err(e) => Err(e),
        }
    }

    /// Takes the reply to the registration of the inotify descriptor.
    pub fn setup_inotify(&mut self, reg: Registration, reply: Reply) -> (r: Result<(), SysError>)
        ensures
            final(self).upcoming() == old(self).upcoming(),
            final(self).epoll() == old(self).epoll(),
            final(self).signal_token() == old(self).signal_token(),
            reply.ret == -1 ==> final(self).watch_token() == old(self).watch_token()
                && error::failed_with(r, reply.code, "epoll_ctl_add"@),
            reply.ret != -1 ==> final(self).watch_token() == Some(reg.token) && r is Ok,
    {
        match Self::add_with_token(reg, reply) {
            Ok(token) => {
                self.inotify_token = Some(token);
                Ok(())
            },
            Err(e) => Err(e),
        }
    }

    /// Takes the reply to the registration of the signal descriptor.
    pub fn setup_signalfd(&mut self, reg: Registration, reply: Reply) -> (r: Result<(), SysError>)
        ensures
            final(self).upcoming() == old(self).upcoming(),
            final(self).epoll() == old(self).epoll(),
            final(self).watch_token() == old(self).watch_token(),
            reply.ret == -1 ==> final(self).signal_token() == old(self).signal_token()
                && error::failed_with(r, reply.code, "epoll_ctl_add"@),
            reply.ret != -1 ==> final(self).signal_token() == Some(reg.token) && r is Ok,
    {
        match Self::add_with_token(reg, reply) {
            Ok(token) => {
                self.sigchld_token = Some(token);
                Ok(())
            },
            Err(e) => Err(e),
        }
    }

    /// Whether to go on draining the signal descriptor once a read of `len`
    /// bytes came to `outcome`: only a full read leaves more to be had.
    pub fn drain_signalfd(outcome: &Result<Option<usize>, SysError>, len: usize) -> (r: bool)
        ensures
            r == (outcome matches Ok(Some(n)) && n >= len),
    {
        match outcome {
            Ok(Some(n)) => *n >= len,
            _ => false,
        }
    }

    /// Takes the reply to waiting for at most `max_events` events, with the
    /// events that the kernel reported, and appends them to `buffer`.
    ///
    /// Returns the number of events that were received. An interrupted wait
    /// yields none.
    pub fn wait(
        &self,
        buffer: &mut Vec<Event>,
        max_events: usize,
        ready: &[RawEvent],
        reply: Reply,
    ) -> (r: Result<usize, SysError>)
        requires
            max_events > 0 && reply.ret > 0 ==> reply.ret <= ready@.len() && reply.ret
                <= max_events,
        ensures
            polled(r, old(buffer)@, final(buffer)@, max_events, ready@, reply),
            r matches Ok(n) ==> n <= max_events,
    {
        if max_events == 0 {
            return Ok(0);
        }
        if reply.ret > 0 {
            let n: usize = reply.ret as usize;
            let ghost before = buffer@;
            let mut i: usize = 0;
            while i < n
                invariant
                    n <= ready@.len(),
                    i <= n,
                    buffer@.len() == before.len() + i,
                    buffer@.take(before.len() as int) == before,
                    forall|j: int|
                        0 <= j < i ==> decodes(buffer@[before.len() + j], #[trigger] ready@[j]),
                decreases n - i,
            {
                buffer.push(Event::decode(ready[i]));
                assert(buffer@.take(before.len() as int) =~= before);
                i = i + 1;
            }
            return Ok(n);
        }
        if reply.ret < 0 {
            if reply.code == EINTR {
                return Ok(0);
            }
            return Err(SysError::sys(reply.code, "epoll_wait"));
        }
        Ok(0)
    }
}

/// A reactor never hands out a token twice: over any history of additions, the
/// tokens grow, and so are pairwise different.
pub proof fn law_tokens_are_unique(
    states: Seq<Reactor>,
    regs: Seq<Registration>,
    readable: Seq<bool>,
    writable: Seq<bool>,
)
    requires
        states.len() == regs.len() + 1,
        readable.len() == regs.len(),
        writable.len() == regs.len(),
        forall|i: int|
            0 <= i < regs.len() ==> adds(
                states[i],
                states[i + 1],
                #[trigger] regs[i],
                readable[i],
                writable[i],
            ),
    ensures
        forall|i: int, j: int|
            0 <= i < j < regs.len() ==> (#[trigger] regs[i]).token.value() < (
            #[trigger] regs[j]).token.value() && regs[i].token != regs[j].token,
{
    assert forall|i: int, j: int| 0 <= i < j < regs.len() implies (#[trigger] regs[i]).token.value()
        < (#[trigger] regs[j]).token.value() && regs[i].token != regs[j].token by {
        lemma_tokens_grow(states, regs, readable, writable, i, j);
    }
}

proof fn lemma_tokens_grow(
    states: Seq<Reactor>,
    regs: Seq<Registration>,
    readable: Seq<bool>,
    writable: Seq<bool>,
    i: int,
    j: int,
)
    requires
        states.len() == regs.len() + 1,
        readable.len() == regs.len(),
        writable.len() == regs.len(),
        forall|k: int|
            0 <= k < regs.len() ==> adds(
                states[k],
                states[k + 1],
                #[trigger] regs[k],
                readable[k],
                writable[k],
            ),
        0 <= i < j < regs.len(),
    ensures
        regs[i].token.value() < regs[j].token.value(),
    decreases j - i,
{
    assert(adds(states[j - 1], states[j], regs[j - 1], readable[j - 1], writable[j - 1]));
    assert(adds(states[j], states[j + 1], regs[j], readable[j], writable[j]));
    if i < j - 1 {
        lemma_tokens_grow(states, regs, readable, writable, i, j - 1);
    }
}

/// An event in error is readable and writable, whatever else the kernel
/// reported.
pub proof fn law_error_is_drainable(event: Event, raw: RawEvent)
    requires
        decodes(event, raw),
        event.error,
    ensures
        event.readable,
        event.writable,
{
}

/// Every condition that the kernel reports is passed on, whatever else it reports
/// with it, and nothing that it does not report: a descriptor is readable exactly
/// where it can be read or is in trouble, and writable exactly where it can be
/// written or is in trouble.
pub proof fn law_every_condition_is_passed_on(event: Event, raw: RawEvent)
    requires
        decodes(event, raw),
    ensures
        raw.events & EPOLLIN != 0 ==> event.readable,
        raw.events & EPOLLOUT != 0 ==> event.writable,
        raw.events & EPOLLERR != 0 ==> event.error && event.readable && event.writable,
        raw.events & EPOLLHUP != 0 ==> event.error && event.readable && event.writable,
        event.error ==> raw.events & EPOLLERR != 0 || raw.events & EPOLLHUP != 0,
        event.readable ==> raw.events & EPOLLIN != 0 || event.error,
        event.writable ==> raw.events & EPOLLOUT != 0 || event.error,
        event.token.value() == raw.data,
{
    let events = raw.events;
    assert(events & (0x8u32 | 0x10u32) != 0 <==> (events & 0x8 != 0 || events & 0x10 != 0))
        by (bit_vector);
}

/// What the kernel reports more of, it is not told less of: an event with more
/// conditions is at least as ready.
pub proof fn law_more_conditions_are_no_less(a: Event, b: Event, raw: RawEvent, more: u32)
    requires
        decodes(a, raw),
        decodes(b, RawEvent { events: raw.events | more, data: raw.data }),
    ensures
        a.readable ==> b.readable,
        a.writable ==> b.writable,
        a.error ==> b.error,
        a.token == b.token,
{
    let events = raw.events;
    assert(events & 0x1 != 0 ==> (events | more) & 0x1 != 0) by (bit_vector);
    assert(events & 0x4 != 0 ==> (events | more) & 0x4 != 0) by (bit_vector);
    assert(events & (0x8u32 | 0x10u32) != 0 ==> (events | more) & (0x8u32 | 0x10u32) != 0) by (bit_vector);
}

/// A descriptor is registered for changes only, and for just the sides that were
/// asked for.
pub proof fn law_registrations_ask_for_what_was_asked(readable: bool, writable: bool)
    ensures
        interest(readable, writable) & EPOLLET != 0,
        interest(readable, writable) & EPOLLIN != 0 <==> readable,
        interest(readable, writable) & EPOLLOUT != 0 <==> writable,
        interest(readable, writable) & !(EPOLLET | EPOLLIN | EPOLLOUT) == 0,
{
    assert(0x8000_0000u32 & 0x8000_0000 != 0 && 0x8000_0000u32 & 1 == 0 && 0x8000_0000u32 & 4 == 0
        && 0x8000_0000u32 & !(0x8000_0000u32 | 1 | 4) == 0) by (bit_vector);
    let r: u32 = 0x8000_0000u32 | 1u32;
    assert(r & 0x8000_0000 != 0 && r & 1 != 0 && r & 4 == 0 && r & !(0x8000_0000u32 | 1 | 4) == 0)
        by (bit_vector)
        requires
            r == 0x8000_0000u32 | 1,
    ;
    let w: u32 = 0x8000_0000u32 | 4u32;
    assert(w & 0x8000_0000 != 0 && w & 1 == 0 && w & 4 != 0 && w & !(0x8000_0000u32 | 1 | 4) == 0)
        by (bit_vector)
        requires
            w == 0x8000_0000u32 | 4,
    ;
    let both: u32 = 0x8000_0000u32 | 1u32 | 4u32;
    assert(both & 0x8000_0000 != 0 && both & 1 != 0 && both & 4 != 0 && both & !(0x8000_0000u32 | 1
        | 4) == 0) by (bit_vector)
        requires
            both == 0x8000_0000u32 | 1 | 4,
    ;
}

/// A wait that the kernel answers with events hands over exactly these, in the
/// order reported, behind what was there; one that it does not answer so changes
/// nothing, and fails only where the call failed without being interrupted.
pub proof fn law_waits_hand_over_what_is_ready(
    r: Result<usize, SysError>,
    before: Seq<Event>,
    after: Seq<Event>,
    max_events: usize,
    ready: Seq<RawEvent>,
    reply: Reply,
    i: int,
)
    requires
        polled(r, before, after, max_events, ready, reply),
    ensures
        r matches Ok(n) ==> after.len() == before.len() + n,
        max_events > 0 && reply.ret > 0 ==> r == Ok::<usize, SysError>(reply.ret as usize),
        0 <= i < before.len() ==> after[i] == before[i],
        max_events > 0 && 0 <= i < reply.ret ==> after[before.len() + i].token.value()
            == ready[i].data && (ready[i].events & EPOLLIN != 0 ==> after[before.len()
            + i].readable) && (ready[i].events & EPOLLOUT != 0 ==> after[before.len()
            + i].writable),
        r is Err <==> max_events > 0 && reply.ret < 0 && reply.code != EINTR,
        r matches Err(e) ==> e->code == reply.code && after == before,
{
    if max_events > 0 && reply.ret > 0 {
        if 0 <= i < before.len() {
            assert(after.take(before.len() as int)[i] == after[i]);
        }
        if 0 <= i < reply.ret {
            assert(decodes(after[before.len() + i], ready[i]));
        }
    }
}

/// A registration uses up one token and leaves all else of the reactor alone.
pub proof fn law_adding_uses_one_token(
    pre: Reactor,
    post: Reactor,
    reg: Registration,
    readable: bool,
    writable: bool,
)
    requires
        adds(pre, post, reg, readable, writable),
    ensures
        reg.token.value() == pre.upcoming(),
        post.upcoming() == reg.token.value() + 1,
        post.epoll() == pre.epoll(),
        post.signal_token() == pre.signal_token(),
        post.watch_token() == pre.watch_token(),
        reg.events & EPOLLIN != 0 <==> readable,
        reg.events & EPOLLOUT != 0 <==> writable,
{
    law_registrations_ask_for_what_was_asked(readable, writable);
}

/// A reactor on a new epoll descriptor is on that one, has handed out no token yet
/// and has none of its own; its first token has the value 1.
pub proof fn law_reactors_start_with_no_token(reply: Reply, r: Result<Reactor, SysError>)
    requires
        call_ensures(Reactor::new, (reply,), r),
    ensures
        r is Err <==> reply.ret == -1,
        r matches Err(e) ==> e->code == reply.code,
        r matches Ok(reactor) ==> reactor.epoll() == reply.ret as i32 && reactor.upcoming() == 1
            && reactor.signal_token() is None && reactor.watch_token() is None,
{
}

/// A registration that the kernel took has the token that it was made with, and
/// the value of a token is the one that it was made of.
pub proof fn law_registrations_keep_their_token(
    reg: Registration,
    reply: Reply,
    r: Result<Token, SysError>,
    n: u64,
    made: Token,
    read: u64,
)
    requires
        call_ensures(Reactor::add_with_token, (reg, reply), r),
        call_ensures(Token::new, (n,), made),
        call_ensures(Token::val, (&made,), read),
    ensures
        r is Err <==> reply.ret == -1,
        r matches Ok(token) ==> token == reg.token,
        r matches Err(e) ==> e->code == reply.code,
        read == n,
{
}

/// Draining the signal descriptor goes on exactly where a read filled what it was
/// given to fill.
pub proof fn law_full_reads_leave_more(
    outcome: &Result<Option<usize>, SysError>,
    len: usize,
    n: usize,
    more: bool,
)
    requires
        call_ensures(Reactor::drain_signalfd, (outcome, len), more),
    ensures
        outcome is Err ==> !more,
        *outcome == Ok::<Option<usize>, SysError>(None) ==> !more,
        *outcome == Ok::<Option<usize>, SysError>(Some(n)) ==> (more <==> n >= len),
{
}

} // verus!
