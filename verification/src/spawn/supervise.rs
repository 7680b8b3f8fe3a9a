//! The life of a spawned process, from the registration of its pipes to its end.
//!
//! A supervisor decides and its caller acts: each action that it asks for is
//! carried out, and what came of it is handed back, upon which it asks for the
//! next one.

use vstd::prelude::*;
use crate::io::buffer;
use crate::io::drain;
use crate::io::drain::{DrainState, DrainStep, Draining, FdSlot, Stream};
use crate::io::writer;
use crate::reactor::poll::{Event, Token};
use crate::spawn::error::SysError;
use crate::spawn::options::Output;
use crate::spawn::process::{ExitStatus, Process};
use crate::spawn::watchdog;
use crate::spawn::watchdog::{exit_timeout, poll_timeout, KillState, Watchdog};
use crate::sys::signal::{CancelPolicy, ProcessGroup, SIGKILL, SIGTERM};

verus! {

/// The most events that are taken at a time.
pub const MAX_EVENTS: usize = 64;

/// A process that is currently running and being monitored.
pub struct RunningProcess<D, F> where F: FnMut(&[u8]) -> bool {
    /// Handle to the process.
    pub process: Process,
    /// Its I/O.
    pub drain: DrainState<D, F>,
}

/// What to do next for a process.
#[derive(Debug)]
pub enum Action<D> {
    /// Register the stream's pipe with the reactor.
    Register {
        stream: Stream,
        readable: bool,
        writable: bool,
    },
    /// Look, without waiting, whether the process has ended.
    CheckChild,
    /// Read the clock.
    ReadClock,
    /// Send the process, or its whole group, a signal.
    Signal {
        signal: i32,
        group: bool,
    },
    /// Wait until the process has ended.
    AwaitChild,
    /// Wait for events, this many milliseconds at most; -1 is without limit.
    Poll {
        timeout: i32,
    },
    /// Read at most `len` bytes from the pipe of stdout, or of stderr.
    Read {
        is_stdout: bool,
        len: usize,
    },
    /// Write the next `len` bytes to the pipe of stdin.
    Write {
        len: usize,
    },
    /// Remove the pipe from the reactor, and close it.
    Forget(FdSlot<D>),
    /// It is all over.
    Finish,
    /// It is over, because something failed.
    Fail(SysError),
}

/// What the supervisor waits to hear of.
#[derive(Clone, Copy, Debug, PartialEq, Eq, Structural)]
pub enum Phase {
    /// The registration of a stream's pipe.
    Registering(Stream),
    /// The first look at the process.
    FirstCheck,
    /// The clock.
    Clock,
    /// The sending of a signal.
    Signalling(i32),
    /// A look at the process.
    Checking,
    /// The end of the process.
    Awaiting,
    /// Events.
    Polling,
    /// A read; `hangup` where the pipe is given up once it is drained.
    Reading {
        is_stdout: bool,
        hangup: bool,
    },
    /// A write.
    Writing,
    /// The removal of a pipe.
    Forgetting,
    /// Nothing more.
    Over,
}

/// The state of the supervision of a process.
pub struct Watch<D, F> {
    pub pid: i32,
    /// Whether the process is waited for.
    pub wait: bool,
    /// Whether its whole group is signalled.
    pub group: bool,
    pub drain: Draining<D, F>,
    pub watchdog: Watchdog,
    /// How the process ended, once that is known.
    pub status: Option<ExitStatus>,
    /// How long to wait for events in this round.
    pub patience: i32,
    /// The events that are still to be handled.
    pub events: Seq<Event>,
    pub phase: Phase,
}

impl<D, F> Watch<D, F> {
    pub open spec fn at(self, phase: Phase) -> Self {
        Watch { phase, ..self }
    }

    /// Registers the next pipe that waits for a token. Once there is none, the
    /// process is left to itself or waited for.
    pub open spec fn registering(self) -> (Self, Action<D>) {
        match self.drain.next_unregistered() {
            Some(stream) => (
                self.at(Phase::Registering(stream)),
                Action::Register {
                    stream,
                    readable: stream != Stream::Stdin,
                    writable: stream == Stream::Stdin,
                },
            ),
            None => if self.wait {
                (self.at(Phase::FirstCheck), Action::CheckChild)
            } else {
                (self.at(Phase::Over), Action::Finish)
            },
        }
    }

    /// Starts a round, with a look at the clock where there is a deadline.
    pub open spec fn new_round(self) -> (Self, Action<D>) {
        if self.watchdog.timeout_ms is Some {
            (self.at(Phase::Clock), Action::ReadClock)
        } else {
            Watch { patience: -1i32, ..self }.checking()
        }
    }

    /// Looks whether the process has ended, unless that is known.
    pub open spec fn checking(self) -> (Self, Action<D>) {
        if self.status is None {
            (self.at(Phase::Checking), Action::CheckChild)
        } else {
            self.deciding()
        }
    }

    /// Waits for events as long as a pipe is left, and then for the process: a
    /// short while at a time as long as its deadline is open, and without limit
    /// once nothing more can come of that.
    pub open spec fn deciding(self) -> (Self, Action<D>) {
        if !self.drain.is_done() {
            (
                self.at(Phase::Polling),
                Action::Poll {
                    timeout: watchdog::poll_limit(
                        self.status is Some,
                        self.patience as int,
                    ) as i32,
                },
            )
        } else if self.status is Some {
            (self.at(Phase::Over), Action::Finish)
        } else if self.watchdog.pending() {
            (
                self.at(Phase::Polling),
                Action::Poll { timeout: watchdog::exit_limit(self.patience as int) as i32 },
            )
        } else {
            (self.at(Phase::Awaiting), Action::AwaitChild)
        }
    }

    /// Handles the next event that calls for it, or starts a new round once
    /// there is none.
    ///
    /// An output pipe is drained, also where it is in error or hung up; then it
    /// is given up afterwards. What is left to write is written, but a stdin
    /// that is in error or hung up is given up with it.
    pub open spec fn handling(self) -> (Self, Action<D>)
        decreases self.events.len(),
    {
        if self.events.len() == 0 {
            self.new_round()
        } else {
            let event = self.events[0];
            let rest = Watch { events: self.events.skip(1), ..self };
            match self.drain.target(event) {
                None => rest.handling(),
                Some(Stream::Stdin) => if event.error {
                    (
                        Watch {
                            drain: Draining { stdin: None, unwritten: None, ..self.drain },
                            phase: Phase::Forgetting,
                            ..rest
                        },
                        Action::Forget(self.drain.stdin->0),
                    )
                } else {
                    let (drain, step) = drain::write_started(self.drain);
                    match step {
                        DrainStep::Transfer { len } => (
                            Watch { drain, phase: Phase::Writing, ..rest },
                            Action::Write { len },
                        ),
                        DrainStep::Done(Ok(_)) => Watch { drain, ..rest }.handling(),
                        DrainStep::Done(Err(e)) => (
                            Watch { drain, phase: Phase::Over, ..rest },
                            Action::Fail(e),
                        ),
                    }
                },
                Some(stream) => (
                    rest.at(
                        Phase::Reading { is_stdout: stream == Stream::Stdout, hangup: event.error },
                    ),
                    Action::Read {
                        is_stdout: stream == Stream::Stdout,
                        len: self.drain.captured.want() as usize,
                    },
                ),
            }
        }
    }

    /// Takes the token of a registered pipe.
    pub open spec fn registered(self, stream: Stream, reply: Result<Token, SysError>) -> (
        Self,
        Action<D>,
    ) {
        match reply {
            Ok(token) => Watch {
                drain: self.drain.with_slot(
                    stream,
                    Some(FdSlot { token: Some(token), fd: self.drain.slot(stream)->0.fd }),
                ),
                ..self
            }.registering(),
            Err(e) => (self.at(Phase::Over), Action::Fail(e)),
        }
    }

    /// Takes what a look at the process has shown.
    pub open spec fn checked(self, reply: Result<Option<ExitStatus>, SysError>) -> (
        Self,
        Action<D>,
    ) {
        match reply {
            Ok(seen) => if self.phase == Phase::FirstCheck {
                Watch { status: seen, ..self }.new_round()
            } else if seen is Some {
                Watch { status: seen, ..self }.deciding()
            } else {
                self.deciding()
            },
            Err(e) => (self.at(Phase::Over), Action::Fail(e)),
        }
    }

    /// Takes the time that has passed, in nanoseconds.
    pub open spec fn clocked(self, elapsed: u128) -> (Self, Action<D>) {
        let next = Watch {
            watchdog: self.watchdog.looked(elapsed),
            patience: self.watchdog.patience(elapsed) as i32,
            ..self
        };
        match self.watchdog.due(elapsed) {
            Some(signal) => (
                next.at(Phase::Signalling(signal)),
                Action::Signal { signal, group: self.group },
            ),
            None => next.checking(),
        }
    }

    /// Takes whether the signal could be sent.
    pub open spec fn signalled(self, signal: i32, ok: bool) -> (Self, Action<D>) {
        Watch { watchdog: self.watchdog.after_signal(signal, ok), ..self }.checking()
    }

    /// Takes how the process ended.
    pub open spec fn awaited(self, reply: Result<ExitStatus, SysError>) -> (Self, Action<D>) {
        match reply {
            Ok(status) => (
                Watch { status: Some(status), phase: Phase::Over, ..self },
                Action::Finish,
            ),
            Err(e) => (self.at(Phase::Over), Action::Fail(e)),
        }
    }

    /// Takes the events that were waited for.
    pub open spec fn polled(self, reply: Result<Seq<Event>, SysError>) -> (Self, Action<D>) {
        match reply {
            Ok(events) => Watch { events, ..self }.handling(),
            Err(e) => (self.at(Phase::Over), Action::Fail(e)),
        }
    }

    /// Takes the outcome of a write.
    pub open spec fn wrote(self, outcome: Result<Option<usize>, SysError>) -> (Self, Action<D>) {
        let (drain, step) = drain::write_taken(self.drain, outcome);
        match step {
            DrainStep::Transfer { len } => (Watch { drain, ..self }, Action::Write { len }),
            DrainStep::Done(Ok(_)) => Watch { drain, ..self }.handling(),
            DrainStep::Done(Err(e)) => (
                Watch { drain, phase: Phase::Over, ..self },
                Action::Fail(e),
            ),
        }
    }

    /// Goes on after a read that turned the I/O into `mid`. A pipe that hung up
    /// is given up once there is nothing more to read, whatever ended the
    /// reading.
    pub open spec fn read_on(
        self,
        is_stdout: bool,
        hangup: bool,
        mid: Draining<D, F>,
        step: DrainStep<D>,
    ) -> (Self, Action<D>) {
        match step {
            DrainStep::Transfer { len } => (
                Watch { drain: mid, ..self },
                Action::Read { is_stdout, len },
            ),
            DrainStep::Done(done) => if hangup {
                (
                    Watch {
                        drain: mid.with_slot(drain::source(is_stdout), None),
                        phase: Phase::Forgetting,
                        ..self
                    },
                    Action::Forget(self.drain.slot(drain::source(is_stdout))->0),
                )
            } else {
                match done {
                    Ok(_) => Watch { drain: mid, ..self }.handling(),
                    Err(e) => (Watch { drain: mid, phase: Phase::Over, ..self }, Action::Fail(e)),
                }
            },
        }
    }

    /// Whether the supervisor waits to hear of just this action. A read is of
    /// what may be taken, and a write of what is next.
    pub open spec fn awaits(self, action: Action<D>) -> bool {
        match action {
            Action::Register { stream, .. } => self.phase == Phase::Registering(stream),
            Action::CheckChild => self.phase is FirstCheck || self.phase is Checking,
            Action::ReadClock => self.phase is Clock,
            Action::Signal { signal, .. } => self.phase == Phase::Signalling(signal),
            Action::AwaitChild => self.phase is Awaiting,
            Action::Poll { .. } => self.phase is Polling,
            Action::Read { is_stdout, len } => len == self.drain.captured.want() && (self.phase
                matches Phase::Reading { is_stdout: source, .. } && source == is_stdout),
            Action::Write { len } => self.phase is Writing && len == writer::chunk_len(
                self.drain.unwritten->0,
            ),
            Action::Forget(_) => self.phase is Forgetting,
            Action::Finish | Action::Fail(_) => self.phase is Over,
        }
    }

    /// Whether what the supervisor waits for is in keeping with the rest of its
    /// state.
    pub open spec fn consistent(self) -> bool {
        &&& self.patience >= -1
        &&& self.wait || self.phase is Registering || self.phase is Over
        &&& self.watchdog.timed_out || self.status is Some ==> self.wait
        &&& self.watchdog.state is TermSent ==> self.watchdog.cancel
            == CancelPolicy::Graceful
        &&& match self.phase {
            Phase::Signalling(signal) => signal == SIGTERM ==> self.watchdog.cancel
                == CancelPolicy::Graceful,
            Phase::Registering(stream) => self.drain.awaits_token(stream) && self.status is None,
            Phase::FirstCheck | Phase::Checking => self.status is None,
            Phase::Awaiting => self.status is None && self.drain.is_done()
                && !self.watchdog.pending(),
            Phase::Reading { is_stdout, .. } => self.drain.slot(drain::source(is_stdout)) is Some,
            Phase::Writing => self.drain.stdin is Some && (self.drain.unwritten matches Some(left)
                && left.len() > 0),
            _ => true,
        }
    }
}

/// Whether taking the outcome of a read turns `pre` into `post`, with `action`
/// to do next.
pub open spec fn takes_read<D, F: FnMut(&[u8]) -> bool>(
    pre: Watch<D, F>,
    post: Watch<D, F>,
    outcome: Result<Option<usize>, SysError>,
    chunk: Seq<u8>,
    action: Action<D>,
) -> bool {
    &&& pre.phase matches Phase::Reading { is_stdout, hangup }
    &&& exists|mid: Draining<D, F>, step: DrainStep<D>| #[trigger]
        drain::takes_read(pre.drain, mid, is_stdout, outcome, chunk, step) && (post, action)
            == pre.read_on(is_stdout, hangup, mid, step)
}

/// Supervises a process.
pub struct Supervisor<D, F> where F: FnMut(&[u8]) -> bool {
    process: Process,
    wait: bool,
    group: bool,
    drain: DrainState<D, F>,
    watchdog: Watchdog,
    status: Option<ExitStatus>,
    patience: i32,
    queue: Vec<Event>,
    next: usize,
    phase: Phase,
}

impl<D, F: FnMut(&[u8]) -> bool> View for Supervisor<D, F> {
    type V = Watch<D, F>;

    closed spec fn view(&self) -> Watch<D, F> {
        Watch {
            pid: self.process.number(),
            wait: self.wait,
            group: self.group,
            drain: self.drain@,
            watchdog: self.watchdog,
            status: self.status,
            patience: self.patience,
            events: self.queue@.skip(self.next as int),
            phase: self.phase,
        }
    }
}

impl<D, F> Supervisor<D, F> where F: FnMut(&[u8]) -> bool {
    /// Whether the supervisor is in order.
    pub closed spec fn wf(&self) -> bool {
        &&& self.next <= self.queue@.len()
        &&& self@.consistent()
    }

    /// A supervisor that is in order is in a consistent state, so that what is
    /// proved of consistent states holds of it.
    pub proof fn law_in_order_is_consistent(&self)
        requires
            self.wf(),
        ensures
            self@.consistent(),
    {
    }

    /// Whether it is in order but for what it waits for.
    spec fn ready(&self) -> bool {
        &&& self.next <= self.queue@.len()
        &&& self.patience >= -1
        &&& self.watchdog.timed_out || self.status is Some ==> self.wait
        &&& self.watchdog.state is TermSent ==> self.watchdog.cancel
            == CancelPolicy::Graceful
    }

    /// Registers the next pipe, or goes on to the process.
    fn register(&mut self) -> (r: Action<D>)
        requires
            old(self).ready(),
            old(self).status is None,
        ensures
            (final(self)@, r) == old(self)@.registering(),
            final(self).wf(),
            final(self)@.awaits(r),
    {
        match self.drain.next_unregistered() {
            Some(stream) => {
                self.phase = Phase::Registering(stream);
                let to_stdin: bool = match stream {
                    Stream::Stdin => true,
                    _ => false,
                };
                Action::Register { stream, readable: !to_stdin, writable: to_stdin }
            },
            None => {
                if self.wait {
                    self.phase = Phase::FirstCheck;
                    Action::CheckChild
                } else {
                    self.phase = Phase::Over;
                    Action::Finish
                }
            },
        }
    }

    /// Waits for events, for the process, or finishes.
    fn decide(&mut self) -> (r: Action<D>)
        requires
            old(self).ready(),
            old(self).wait,
        ensures
            (final(self)@, r) == old(self)@.deciding(),
            final(self).wf(),
            final(self)@.awaits(r),
    {
        if !self.drain.is_done() {
            self.phase = Phase::Polling;
            Action::Poll { timeout: poll_timeout(self.status.is_some(), self.patience) }
        } else if self.status.is_some() {
            self.phase = Phase::Over;
            Action::Finish
        } else if self.watchdog.is_pending() {
            self.phase = Phase::Polling;
            Action::Poll { timeout: exit_timeout(self.patience) }
        } else {
            self.phase = Phase::Awaiting;
            Action::AwaitChild
        }
    }

    /// Looks at the process, unless it has ended.
    fn check(&mut self) -> (r: Action<D>)
        requires
            old(self).ready(),
            old(self).wait,
        ensures
            (final(self)@, r) == old(self)@.checking(),
            final(self).wf(),
            final(self)@.awaits(r),
    {
        if self.status.is_none() {
            self.phase = Phase::Checking;
            Action::CheckChild
        } else {
            self.decide()
        }
    }

    /// Starts a round.
    fn start_round(&mut self) -> (r: Action<D>)
        requires
            old(self).ready(),
            old(self).wait,
        ensures
            (final(self)@, r) == old(self)@.new_round(),
            final(self).wf(),
            final(self)@.awaits(r),
    {
        if self.watchdog.timeout_ms.is_some() {
            self.phase = Phase::Clock;
            Action::ReadClock
        } else {
            self.patience = -1;
            self.check()
        }
    }

    /// Ends the supervision with a failure.
    fn fail(&mut self, e: SysError) -> (r: Action<D>)
        requires
            old(self).ready(),
        ensures
            final(self)@ == old(self)@.at(Phase::Over),
            r == Action::<D>::Fail(e),
            final(self).wf(),
            final(self)@.awaits(r),
    {
        self.phase = Phase::Over;
        Action::Fail(e)
    }

    /// Handles the events that are left.
    fn handle(&mut self) -> (r: Action<D>)
        requires
            old(self).ready(),
            old(self).wait,
        ensures
            (final(self)@, r) == old(self)@.handling(),
            final(self).wf(),
            final(self)@.awaits(r),
    {
        while self.next < self.queue.len()
            invariant
                self.ready(),
                self.wait,
                self@.handling() == old(self)@.handling(),
            decreases self.queue@.len() - self.next,
        {
            let event: Event = self.queue[self.next];
            let target = self.drain.target(event);
            assert(self@.events[0] == event);
            assert(self@.events.skip(1) =~= self.queue@.skip(self.next + 1));
            self.next = self.next + 1;
            match target {
                None => {},
                Some(Stream::Stdin) => {
                    if event.error {
                        let slot = self.drain.take_slot(Stream::Stdin);
                        self.drain.writer.abandon();
                        if let Some(slot) = slot {
                            self.phase = Phase::Forgetting;
                            return Action::Forget(slot);
                        }
                    } else {
                        match self.drain.start_write() {
                            DrainStep::Transfer { len } => {
                                self.phase = Phase::Writing;
                                return Action::Write { len };
                            },
                            DrainStep::Done(Ok(_)) => {},
                            DrainStep::Done(Err(e)) => {
                                return self.fail(e);
                            },
                        }
                    }
                },
                Some(stream) => {
                    let is_stdout: bool = match stream {
                        Stream::Stdout => true,
                        _ => false,
                    };
                    self.phase = Phase::Reading { is_stdout, hangup: event.error };
                    return Action::Read { is_stdout, len: self.drain.buffer.next_read() };
                },
            }
        }
        assert(self@.events =~= Seq::<Event>::empty());
        self.start_round()
    }

    /// Starts to supervise a process, with the first thing to do.
    pub fn start(
        running: RunningProcess<D, F>,
        wait: bool,
        timeout_ms: Option<u32>,
        kill_grace_ms: u32,
        cancel: CancelPolicy,
        pgroup: ProcessGroup,
    ) -> (r: (Self, Action<D>))
        ensures
            (r.0@, r.1) == (Watch::<D, F> {
                pid: running.process.number(),
                wait,
                group: pgroup.group_wide(),
                drain: running.drain@,
                watchdog: Watchdog {
                    timeout_ms,
                    kill_grace_ms,
                    cancel,
                    state: KillState::NothingSent,
                    timed_out: false,
                    looked_at: 0,
                },
                status: None,
                patience: -1i32,
                events: Seq::<Event>::empty(),
                phase: Phase::Over,
            }).registering(),
            r.0.wf(),
            r.0@.awaits(r.1),
    {
        let mut sup = Supervisor {
            process: running.process,
            wait,
            group: pgroup.is_group(),
            drain: running.drain,
            watchdog: Watchdog::new(timeout_ms, kill_grace_ms, cancel),
            status: None,
            patience: -1,
            queue: Vec::new(),
            next: 0,
            phase: Phase::Over,
        };
        assert(sup@.events =~= Seq::<Event>::empty());
        let action = sup.register();
        (sup, action)
    }

    /// The process.
    pub fn process(&self) -> (r: &Process)
        ensures
            r.number() == self@.pid,
    {
        &self.process
    }

    /// The descriptor of a stream's pipe.
    pub fn fd(&self, stream: Stream) -> (r: Option<&D>)
        ensures
            r == (match self@.drain.slot(stream) {
                Some(slot) => Some(&slot.fd),
                None => None,
            }),
    {
        self.drain.fd(stream)
    }

    /// The bytes to write next to stdin.
    pub fn chunk(&self) -> (r: &[u8])
        ensures
            r@ == (match self@.drain.unwritten {
                Some(left) => left.take(writer::chunk_len(left)),
                None => Seq::<u8>::empty(),
            }),
    {
        self.drain.writer.chunk()
    }

    /// Takes the token of the registered pipe.
    pub fn registered(&mut self, reply: Result<Token, SysError>) -> (r: Action<D>)
        requires
            old(self).wf(),
            old(self)@.phase is Registering,
        ensures
            (final(self)@, r) == old(self)@.registered(old(self)@.phase->Registering_0, reply),
            final(self).wf(),
            final(self)@.awaits(r),
    {
        match reply {
            Ok(token) => {
                if let Phase::Registering(stream) = self.phase {
                    self.drain.assign(stream, token);
                }
                self.register()
            },
            Err(e) => self.fail(e),
        }
    }

    /// Takes what a look at the process has shown: how it ended, or `None` where
    /// it still runs.
    pub fn checked(&mut self, reply: Result<Option<ExitStatus>, SysError>) -> (r: Action<D>)
        requires
            old(self).wf(),
            old(self)@.phase is FirstCheck || old(self)@.phase is Checking,
        ensures
            (final(self)@, r) == old(self)@.checked(reply),
            final(self).wf(),
            final(self)@.awaits(r),
    {
        match reply {
            Ok(seen) => match self.phase {
                Phase::FirstCheck => {
                    self.status = seen;
                    self.start_round()
                },
                _ => {
                    if seen.is_some() {
                        self.status = seen;
                    }
                    self.decide()
                },
            },
            Err(e) => self.fail(e),
        }
    }

    /// Takes the time that has passed since the process was first looked at, in
    /// nanoseconds.
    pub fn clocked(&mut self, elapsed: u128) -> (r: Action<D>)
        requires
            old(self).wf(),
            old(self)@.phase is Clock,
        ensures
            (final(self)@, r) == old(self)@.clocked(elapsed),
            final(self).wf(),
            final(self)@.awaits(r),
    {
        let tick = self.watchdog.tick(elapsed);
        self.patience = tick.poll_timeout;
        match tick.signal {
            Some(signal) => {
                self.phase = Phase::Signalling(signal);
                Action::Signal { signal, group: self.group }
            },
            None => self.check(),
        }
    }

    /// Takes whether the signal could be sent.
    pub fn signalled(&mut self, ok: bool) -> (r: Action<D>)
        requires
            old(self).wf(),
            old(self)@.phase is Signalling,
        ensures
            (final(self)@, r) == old(self)@.signalled(old(self)@.phase->Signalling_0, ok),
            final(self).wf(),
            final(self)@.awaits(r),
    {
        if let Phase::Signalling(signal) = self.phase {
            self.watchdog.sent(signal, ok);
        }
        self.check()
    }

    /// Takes how the process ended.
    pub fn awaited(&mut self, reply: Result<ExitStatus, SysError>) -> (r: Action<D>)
        requires
            old(self).wf(),
            old(self)@.phase is Awaiting,
        ensures
            (final(self)@, r) == old(self)@.awaited(reply),
            final(self).wf(),
            final(self)@.awaits(r),
    {
        match reply {
            Ok(status) => {
                self.status = Some(status);
                self.phase = Phase::Over;
                Action::Finish
            },
            Err(e) => self.fail(e),
        }
    }

    /// Takes the events that were waited for.
    pub fn polled(&mut self, reply: Result<Vec<Event>, SysError>) -> (r: Action<D>)
        requires
            old(self).wf(),
            old(self)@.phase is Polling,
        ensures
            (final(self)@, r) == old(self)@.polled(
                match reply {
                    Ok(events) => Ok(events@),
                    Err(e) => Err(e),
                },
            ),
            final(self).wf(),
            final(self)@.awaits(r),
    {
        match reply {
            Ok(events) => {
                self.queue = events;
                self.next = 0;
                assert(self@.events =~= events@);
                self.handle()
            },
            Err(e) => self.fail(e),
        }
    }

    /// Takes the outcome of a read into `chunk`: the number of bytes read, or
    /// `None` where the call would block.
    pub fn read(&mut self, outcome: Result<Option<usize>, SysError>, chunk: &[u8]) -> (r: Action<
        D,
    >)
        requires
            old(self).wf(),
            old(self)@.phase is Reading,
            outcome matches Ok(Some(n)) ==> n <= chunk@.len() && n
                <= old(self)@.drain.captured.want(),
            buffer::askable(old(self)@.drain.early_exit),
        ensures
            takes_read(old(self)@, final(self)@, outcome, chunk@, r),
            final(self).wf(),
            final(self)@.awaits(r),
    {
        let (is_stdout, hangup) = match self.phase {
            Phase::Reading { is_stdout, hangup } => (is_stdout, hangup),
            _ => (false, false),
        };
        let step = self.drain.read_fd(is_stdout, outcome, chunk);
        let ghost taken = step;
        let ghost mid = self.drain@;
        assert(drain::takes_read(old(self)@.drain, mid, is_stdout, outcome, chunk@, taken));
        match step {
            DrainStep::Transfer { len } => Action::Read { is_stdout, len },
            DrainStep::Done(done) => {
                if hangup {
                    let left = self.drain.take_slot(
                        if is_stdout {
                            Stream::Stdout
                        } else {
                            Stream::Stderr
                        },
                    );
                    let slot = match done {
                        Ok(Some(slot)) => Some(slot),
                        _ => left,
                    };
                    self.phase = Phase::Forgetting;
                    match slot {
                        Some(slot) => Action::Forget(slot),
                        None => self.handle(),
                    }
                } else {
                    match done {
                        Ok(_) => self.handle(),
                        Err(e) => self.fail(e),
                    }
                }
            },
        }
    }

    /// Takes the outcome of a write: the number of bytes written, or `None` where
    /// the call would block.
    pub fn wrote(&mut self, outcome: Result<Option<usize>, SysError>) -> (r: Action<D>)
        requires
            old(self).wf(),
            old(self)@.phase is Writing,
        ensures
            (final(self)@, r) == old(self)@.wrote(outcome),
            final(self).wf(),
            final(self)@.awaits(r),
    {
        match self.drain.write_stdin(outcome) {
            DrainStep::Transfer { len } => Action::Write { len },
            DrainStep::Done(Ok(_)) => self.handle(),
            DrainStep::Done(Err(e)) => self.fail(e),
        }
    }

    /// Goes on once a pipe was removed.
    pub fn forgot(&mut self) -> (r: Action<D>)
        requires
            old(self).wf(),
            old(self)@.phase is Forgetting,
        ensures
            (final(self)@, r) == old(self)@.handling(),
            final(self).wf(),
            final(self)@.awaits(r),
    {
        self.handle()
    }

    /// What came of it all. Of a process that no one waits for, it is not known
    /// how it ended.
    pub fn into_output(self) -> (r: Output)
        requires
            self.wf(),
        ensures
            !self@.wait ==> r.status is None && !r.timed_out,
            r.pid == self@.pid,
            r.status == self@.status,
            r.stdout@ == self@.drain.captured.stdout,
            r.stderr@ == self@.drain.captured.stderr,
            r.timed_out == self@.watchdog.timed_out,
            r.stdout@.len() + r.stderr@.len() <= self@.drain.captured.limit,
    {
        let pid: i32 = self.process.pid();
        let timed_out: bool = self.watchdog.timed_out;
        let status = self.status;
        let (stdout, stderr) = self.drain.into_parts();
        Output { pid, status, stdout, stderr, timed_out }
    }
}

/// Whether a read brought no more than its chunk holds and than was asked for.
pub open spec fn read_fits<D, F>(
    pre: Watch<D, F>,
    outcome: Result<Option<usize>, SysError>,
    chunk: Seq<u8>,
) -> bool {
    outcome matches Ok(Some(n)) ==> n <= chunk.len() && n <= pre.drain.captured.want()
}

/// Whether some answer to what `pre` waits for turns it into `post`, with
/// `action` to do next.
pub open spec fn advances<D, F: FnMut(&[u8]) -> bool>(
    pre: Watch<D, F>,
    post: Watch<D, F>,
    action: Action<D>,
) -> bool {
    match pre.phase {
        Phase::Registering(stream) => exists|reply: Result<Token, SysError>|
            (post, action) == #[trigger] pre.registered(stream, reply),
        Phase::FirstCheck | Phase::Checking => exists|
            reply: Result<Option<ExitStatus>, SysError>,
        |
            (post, action) == #[trigger] pre.checked(reply),
        Phase::Clock => exists|elapsed: u128| (post, action) == #[trigger] pre.clocked(elapsed),
        Phase::Signalling(signal) => exists|ok: bool|
            (post, action) == #[trigger] pre.signalled(signal, ok),
        Phase::Awaiting => exists|reply: Result<ExitStatus, SysError>|
            (post, action) == #[trigger] pre.awaited(reply),
        Phase::Polling => exists|reply: Result<Seq<Event>, SysError>|
            (post, action) == #[trigger] pre.polled(reply),
        Phase::Reading { .. } => exists|
            outcome: Result<Option<usize>, SysError>,
            chunk: Seq<u8>,
        | #[trigger]
            takes_read(pre, post, outcome, chunk, action) && read_fits(pre, outcome, chunk),
        Phase::Writing => exists|outcome: Result<Option<usize>, SysError>|
            (post, action) == #[trigger] pre.wrote(outcome),
        Phase::Forgetting => (post, action) == pre.handling(),
        Phase::Over => false,
    }
}

/// Whether a pipe is where it was, with or without a new token, or gone.
pub open spec fn kept_or_gone<D>(pre: Option<FdSlot<D>>, post: Option<FdSlot<D>>) -> bool {
    match (pre, post) {
        (Some(a), Some(b)) => a.fd == b.fd && (a.token is Some ==> a.token == b.token),
        (None, Some(_)) => false,
        (_, None) => true,
    }
}

/// What holds of every step.
spec fn sound<D, F>(pre: Watch<D, F>, post: Watch<D, F>, action: Action<D>) -> bool {
    &&& post.pid == pre.pid
    &&& post.wait == pre.wait
    &&& post.group == pre.group
    &&& pre.status is Some ==> post.status == pre.status
    &&& forall|stream: Stream|
        kept_or_gone(pre.drain.slot(stream), #[trigger] post.drain.slot(stream))
    &&& pre.drain.captured.stdout.is_prefix_of(post.drain.captured.stdout)
    &&& pre.drain.captured.stderr.is_prefix_of(post.drain.captured.stderr)
    &&& post.drain.captured.limit == pre.drain.captured.limit
    &&& action is Finish && pre.wait ==> post.drain.is_done() && post.status is Some
    &&& action is AwaitChild ==> post.drain.is_done() && !post.watchdog.pending()
    &&& action matches Action::Poll { timeout } ==> if post.drain.is_done() {
        post.status is None && post.watchdog.pending() && 0 <= timeout <= watchdog::EXIT_POLL_MS
    } else {
        post.status is Some ==> 0 <= timeout <= 1
    }
    &&& action matches Action::Forget(slot) ==> exists|stream: Stream|
        pre.drain.slot(stream) == Some(slot) && (#[trigger] post.drain.slot(stream)) is None
    &&& action matches Action::Signal { group, .. } ==> pre.watchdog.timeout_ms is Some
        && pre.watchdog.cancel != CancelPolicy::DoNothing && post.watchdog.timed_out && group
        == pre.group
}

proof fn lemma_handling_is_sound<D, F>(pre: Watch<D, F>)
    requires
        pre.patience >= -1,
    ensures
        sound(pre, pre.handling().0, pre.handling().1),
    decreases pre.events.len(),
{
    if pre.events.len() > 0 {
        let event = pre.events[0];
        let rest = Watch { events: pre.events.skip(1), ..pre };
        match pre.drain.target(event) {
            None => {
                lemma_handling_is_sound(rest);
            },
            Some(Stream::Stdin) => {
                if event.error {
                    let post = pre.handling().0;
                    assert(post.drain.slot(Stream::Stdin) is None);
                } else {
                    let (drain, step) = drain::write_started(pre.drain);
                    if let DrainStep::Done(Ok(_)) = step {
                        lemma_handling_is_sound(Watch { drain, ..rest });
                    }
                }
            },
            Some(_) => {},
        }
    }
}

proof fn lemma_reads_are_sound<D, F: FnMut(&[u8]) -> bool>(
    pre: Watch<D, F>,
    post: Watch<D, F>,
    outcome: Result<Option<usize>, SysError>,
    chunk: Seq<u8>,
    action: Action<D>,
)
    requires
        pre.consistent(),
        takes_read(pre, post, outcome, chunk, action),
    ensures
        sound(pre, post, action),
{
    if let Phase::Reading { is_stdout, hangup } = pre.phase {
        let (mid, step) = choose|mid: Draining<D, F>, step: DrainStep<D>| #[trigger]
            drain::takes_read(pre.drain, mid, is_stdout, outcome, chunk, step) && (post, action)
                == pre.read_on(is_stdout, hangup, mid, step);
        if let DrainStep::Done(done) = step {
            if hangup {
                assert(post.drain.slot(drain::source(is_stdout)) is None);
            } else if done is Ok {
                lemma_handling_is_sound(Watch { drain: mid, ..pre });
            }
        }
    }
}

proof fn lemma_steps_are_sound<D, F: FnMut(&[u8]) -> bool>(
    pre: Watch<D, F>,
    post: Watch<D, F>,
    action: Action<D>,
)
    requires
        pre.consistent(),
        advances(pre, post, action),
    ensures
        sound(pre, post, action),
{
    match pre.phase {
        Phase::Polling => {
            let reply = choose|reply: Result<Seq<Event>, SysError>|
                (post, action) == #[trigger] pre.polled(reply);
            if let Ok(events) = reply {
                lemma_handling_is_sound(Watch { events, ..pre });
            }
        },
        Phase::Forgetting => {
            lemma_handling_is_sound(pre);
        },
        Phase::Writing => {
            let outcome = choose|outcome: Result<Option<usize>, SysError>|
                (post, action) == #[trigger] pre.wrote(outcome);
            let (drain, step) = drain::write_taken(pre.drain, outcome);
            if let DrainStep::Done(Ok(_)) = step {
                lemma_handling_is_sound(Watch { drain, ..pre });
            }
        },
        Phase::Reading { .. } => {
            let (outcome, chunk) = choose|
                outcome: Result<Option<usize>, SysError>,
                chunk: Seq<u8>,
            | #[trigger]
                takes_read(pre, post, outcome, chunk, action) && read_fits(pre, outcome, chunk);
            lemma_reads_are_sound(pre, post, outcome, chunk, action);
        },
        _ => {},
    }
}

/// Supervision of a process that is waited for finishes only once every pipe is
/// drained or closed and it is known how the process ended; and the process is
/// waited for without limit only once no pipe is left and nothing more can come
/// of its deadline.
pub proof fn law_finish_is_complete<D, F: FnMut(&[u8]) -> bool>(
    pre: Watch<D, F>,
    post: Watch<D, F>,
    action: Action<D>,
)
    requires
        pre.consistent(),
        advances(pre, post, action),
    ensures
        action is Finish && pre.wait ==> post.drain.is_done() && post.status is Some,
        action is AwaitChild ==> post.drain.is_done() && !post.watchdog.pending(),
{
    lemma_steps_are_sound(pre, post, action);
}

/// How a process ended is not forgotten or revised, nor which process it is.
pub proof fn law_status_is_final<D, F: FnMut(&[u8]) -> bool>(
    pre: Watch<D, F>,
    post: Watch<D, F>,
    action: Action<D>,
)
    requires
        pre.consistent(),
        advances(pre, post, action),
    ensures
        pre.status is Some ==> post.status == pre.status,
        post.pid == pre.pid,
{
    lemma_steps_are_sound(pre, post, action);
}

/// A pipe is never replaced and never comes back: at each step it stays or
/// goes, and one that is given up is one that was there and is there no more.
pub proof fn law_pipes_stay_or_go<D, F: FnMut(&[u8]) -> bool>(
    pre: Watch<D, F>,
    post: Watch<D, F>,
    action: Action<D>,
    stream: Stream,
)
    requires
        pre.consistent(),
        advances(pre, post, action),
    ensures
        kept_or_gone(pre.drain.slot(stream), post.drain.slot(stream)),
        action matches Action::Forget(slot) ==> exists|s: Stream|
            pre.drain.slot(s) == Some(slot) && (#[trigger] post.drain.slot(s)) is None,
{
    lemma_steps_are_sound(pre, post, action);
}

/// What was captured stays captured: each step keeps it or adds to its end.
pub proof fn law_capture_only_grows<D, F: FnMut(&[u8]) -> bool>(
    pre: Watch<D, F>,
    post: Watch<D, F>,
    action: Action<D>,
)
    requires
        pre.consistent(),
        advances(pre, post, action),
    ensures
        pre.drain.captured.stdout.is_prefix_of(post.drain.captured.stdout),
        pre.drain.captured.stderr.is_prefix_of(post.drain.captured.stderr),
        post.drain.captured.limit == pre.drain.captured.limit,
{
    lemma_steps_are_sound(pre, post, action);
}

/// Once the process is known to have ended, events are waited for only while a
/// pipe is left, and for a millisecond at most. Without a pipe they are waited for
/// only while the deadline is open, and not for long.
pub proof fn law_ended_process_is_not_waited_on<D, F: FnMut(&[u8]) -> bool>(
    pre: Watch<D, F>,
    post: Watch<D, F>,
    timeout: i32,
)
    requires
        pre.consistent(),
        advances(pre, post, Action::Poll { timeout }),
    ensures
        post.status is Some ==> !post.drain.is_done() && 0 <= timeout <= 1,
        post.drain.is_done() ==> post.watchdog.pending() && 0 <= timeout
            <= watchdog::EXIT_POLL_MS,
{
    lemma_steps_are_sound(pre, post, Action::Poll { timeout });
}

/// A process is signalled only where it has a deadline, the deadline has passed
/// and its policy is not to let it run.
pub proof fn law_signals_need_a_deadline<D, F: FnMut(&[u8]) -> bool>(
    pre: Watch<D, F>,
    post: Watch<D, F>,
    signal: i32,
    group: bool,
)
    requires
        pre.consistent(),
        advances(pre, post, Action::Signal { signal, group }),
    ensures
        pre.watchdog.timeout_ms is Some,
        pre.watchdog.cancel != CancelPolicy::DoNothing,
        post.watchdog.timed_out,
        group == pre.group,
{
    lemma_steps_are_sound(pre, post, Action::Signal { signal, group });
}

proof fn lemma_handling_is_consistent<D, F>(pre: Watch<D, F>)
    requires
        pre.at(Phase::Polling).consistent(),
    ensures
        pre.handling().0.consistent(),
    decreases pre.events.len(),
{
    if pre.events.len() > 0 {
        let event = pre.events[0];
        let rest = Watch { events: pre.events.skip(1), ..pre };
        match pre.drain.target(event) {
            None => {
                lemma_handling_is_consistent(rest);
            },
            Some(Stream::Stdin) => {
                if !event.error {
                    let (drain, step) = drain::write_started(pre.drain);
                    if let DrainStep::Done(Ok(_)) = step {
                        lemma_handling_is_consistent(Watch { drain, ..rest });
                    }
                }
            },
            Some(_) => {},
        }
    }
}

/// Every step leads from a consistent state to a consistent one, so that what
/// holds of one step holds all along.
pub proof fn law_states_stay_consistent<D, F: FnMut(&[u8]) -> bool>(
    pre: Watch<D, F>,
    post: Watch<D, F>,
    action: Action<D>,
)
    requires
        pre.consistent(),
        advances(pre, post, action),
    ensures
        post.consistent(),
{
    match pre.phase {
        Phase::Polling => {
            let reply = choose|reply: Result<Seq<Event>, SysError>|
                (post, action) == #[trigger] pre.polled(reply);
            if let Ok(events) = reply {
                lemma_handling_is_consistent(Watch { events, ..pre });
            }
        },
        Phase::Forgetting => {
            lemma_handling_is_consistent(pre);
        },
        Phase::Writing => {
            let outcome = choose|outcome: Result<Option<usize>, SysError>|
                (post, action) == #[trigger] pre.wrote(outcome);
            let (drain, step) = drain::write_taken(pre.drain, outcome);
            if let DrainStep::Done(Ok(_)) = step {
                lemma_handling_is_consistent(Watch { drain, ..pre });
            }
        },
        Phase::Reading { is_stdout, hangup } => {
            let (outcome, chunk) = choose|
                outcome: Result<Option<usize>, SysError>,
                chunk: Seq<u8>,
            | #[trigger]
                takes_read(pre, post, outcome, chunk, action) && read_fits(pre, outcome, chunk);
            let (mid, step) = choose|mid: Draining<D, F>, step: DrainStep<D>| #[trigger]
                drain::takes_read(pre.drain, mid, is_stdout, outcome, chunk, step) && (post, action)
                    == pre.read_on(is_stdout, hangup, mid, step);
            if let DrainStep::Done(Ok(_)) = step {
                if !hangup {
                    lemma_handling_is_consistent(Watch { drain: mid, ..pre });
                }
            }
        },
        _ => {},
    }
}

proof fn lemma_handling_keeps_output<D, F>(pre: Watch<D, F>)
    ensures
        pre.handling().0.drain.captured == pre.drain.captured,
        pre.handling().0.drain.stdout == pre.drain.stdout,
        pre.handling().0.drain.stderr == pre.drain.stderr,
    decreases pre.events.len(),
{
    if pre.events.len() > 0 {
        let event = pre.events[0];
        let rest = Watch { events: pre.events.skip(1), ..pre };
        match pre.drain.target(event) {
            None => {
                lemma_handling_keeps_output(rest);
            },
            Some(Stream::Stdin) => {
                if !event.error {
                    let (drain, step) = drain::write_started(pre.drain);
                    if let DrainStep::Done(Ok(_)) = step {
                        lemma_handling_keeps_output(Watch { drain, ..rest });
                    }
                }
            },
            Some(_) => {},
        }
    }
}

/// What is captured is what the reads brought, chunk after chunk: a read adds
/// what it brought to its stream, as far as there is room.
pub proof fn law_reads_are_captured<D, F: FnMut(&[u8]) -> bool>(
    pre: Watch<D, F>,
    post: Watch<D, F>,
    is_stdout: bool,
    hangup: bool,
    outcome: Result<Option<usize>, SysError>,
    chunk: Seq<u8>,
    action: Action<D>,
)
    requires
        pre.phase == (Phase::Reading { is_stdout, hangup }),
        takes_read(pre, post, outcome, chunk, action),
    ensures
        post.drain.captured == (match outcome {
            Ok(Some(n)) if n > 0 => pre.drain.captured.with(is_stdout, chunk.take(n as int)),
            _ => pre.drain.captured,
        }),
{
    let (mid, step) = choose|mid: Draining<D, F>, step: DrainStep<D>| #[trigger]
        drain::takes_read(pre.drain, mid, is_stdout, outcome, chunk, step) && (post, action)
            == pre.read_on(is_stdout, hangup, mid, step);
    if let DrainStep::Done(Ok(_)) = step {
        if !hangup {
            lemma_handling_keeps_output(Watch { drain: mid, ..pre });
        }
    }
}

/// Nothing but a read changes what is captured; and an output pipe is given up
/// only where reading from it has come to an end, never with an event alone.
pub proof fn law_only_reading_ends_output<D, F: FnMut(&[u8]) -> bool>(
    pre: Watch<D, F>,
    post: Watch<D, F>,
    action: Action<D>,
)
    requires
        advances(pre, post, action),
        !(pre.phase is Reading),
    ensures
        post.drain.captured == pre.drain.captured,
        pre.drain.stdout is Some ==> post.drain.stdout is Some,
        pre.drain.stderr is Some ==> post.drain.stderr is Some,
{
    match pre.phase {
        Phase::Polling => {
            let reply = choose|reply: Result<Seq<Event>, SysError>|
                (post, action) == #[trigger] pre.polled(reply);
            if let Ok(events) = reply {
                lemma_handling_keeps_output(Watch { events, ..pre });
            }
        },
        Phase::Forgetting => {
            lemma_handling_keeps_output(pre);
        },
        Phase::Writing => {
            let outcome = choose|outcome: Result<Option<usize>, SysError>|
                (post, action) == #[trigger] pre.wrote(outcome);
            let (drain, step) = drain::write_taken(pre.drain, outcome);
            if let DrainStep::Done(Ok(_)) = step {
                lemma_handling_keeps_output(Watch { drain, ..pre });
            }
        },
        _ => {},
    }
}

/// Reading from an output pipe goes on as long as it brings anything, unless the
/// closure ends it: it is not given up before it is at its end, would block or
/// fails.
pub proof fn law_output_pipes_are_drained<D, F: FnMut(&[u8]) -> bool>(
    pre: Watch<D, F>,
    post: Watch<D, F>,
    is_stdout: bool,
    hangup: bool,
    n: usize,
    chunk: Seq<u8>,
    action: Action<D>,
)
    requires
        pre.phase == (Phase::Reading { is_stdout, hangup }),
        takes_read(pre, post, Ok(Some(n)), chunk, action),
        n > 0,
    ensures
        action is Read && post.phase == pre.phase || buffer::asks(
            pre.drain.captured,
            is_stdout,
            Ok(Some(n)),
            pre.drain.early_exit,
        ) && buffer::answers(pre.drain.early_exit->0, chunk.take(n as int), true),
{
}

proof fn lemma_handling_keeps_watchdog<D, F>(pre: Watch<D, F>)
    ensures
        pre.handling().0.watchdog == pre.watchdog,
        !(pre.handling().1 is Signal),
        !(pre.handling().0.phase is Signalling),
    decreases pre.events.len(),
{
    if pre.events.len() > 0 {
        let event = pre.events[0];
        let rest = Watch { events: pre.events.skip(1), ..pre };
        match pre.drain.target(event) {
            None => {
                lemma_handling_keeps_watchdog(rest);
            },
            Some(Stream::Stdin) => {
                if !event.error {
                    let (drain, step) = drain::write_started(pre.drain);
                    if let DrainStep::Done(Ok(_)) = step {
                        lemma_handling_keeps_watchdog(Watch { drain, ..rest });
                    }
                }
            },
            Some(_) => {},
        }
    }
}

/// What a step makes of the watchdog.
pub open spec fn watchdog_step<D, F>(
    pre: Watch<D, F>,
    post: Watch<D, F>,
    action: Action<D>,
) -> bool {
    match pre.phase {
        Phase::Clock => {
            &&& post.watchdog == pre.watchdog.looked(post.watchdog.looked_at)
            &&& pre.watchdog.due(post.watchdog.looked_at) == (match action {
                Action::Signal { signal, .. } => Some(signal),
                _ => None,
            })
        },
        Phase::Signalling(signal) => {
            &&& !(action is Signal)
            &&& post.watchdog == pre.watchdog.after_signal(signal, true) || post.watchdog
                == pre.watchdog.after_signal(signal, false)
        },
        _ => !(action is Signal) && post.watchdog == pre.watchdog,
    }
}

/// Only a look at the clock and the sending of a signal change the watchdog, and
/// just as the watchdog says; and a signal is asked for just where a look at the
/// clock calls for it. So what is proved of looks holds of a supervised process.
pub proof fn law_only_the_clock_moves_the_watchdog<D, F: FnMut(&[u8]) -> bool>(
    pre: Watch<D, F>,
    post: Watch<D, F>,
    action: Action<D>,
)
    requires
        advances(pre, post, action),
    ensures
        watchdog_step(pre, post, action),
        post.phase is Signalling <==> action is Signal,
        action matches Action::Signal { signal, .. } ==> post.phase == Phase::Signalling(signal),
{
    match pre.phase {
        Phase::Polling => {
            let reply = choose|reply: Result<Seq<Event>, SysError>|
                (post, action) == #[trigger] pre.polled(reply);
            if let Ok(events) = reply {
                lemma_handling_keeps_watchdog(Watch { events, ..pre });
            }
        },
        Phase::Forgetting => {
            lemma_handling_keeps_watchdog(pre);
        },
        Phase::Writing => {
            let outcome = choose|outcome: Result<Option<usize>, SysError>|
                (post, action) == #[trigger] pre.wrote(outcome);
            let (drain, step) = drain::write_taken(pre.drain, outcome);
            if let DrainStep::Done(Ok(_)) = step {
                lemma_handling_keeps_watchdog(Watch { drain, ..pre });
            }
        },
        Phase::Reading { is_stdout, hangup } => {
            let (outcome, chunk) = choose|
                outcome: Result<Option<usize>, SysError>,
                chunk: Seq<u8>,
            | #[trigger]
                takes_read(pre, post, outcome, chunk, action) && read_fits(pre, outcome, chunk);
            let (mid, step) = choose|mid: Draining<D, F>, step: DrainStep<D>| #[trigger]
                drain::takes_read(pre.drain, mid, is_stdout, outcome, chunk, step) && (post, action)
                    == pre.read_on(is_stdout, hangup, mid, step);
            if let DrainStep::Done(Ok(_)) = step {
                if !hangup {
                    lemma_handling_keeps_watchdog(Watch { drain: mid, ..pre });
                }
            }
        },
        _ => {},
    }
}

/// A run of the supervision: states from a consistent one on, each with the
/// action that led to the next one being asked for.
pub open spec fn is_run<D, F: FnMut(&[u8]) -> bool>(
    states: Seq<Watch<D, F>>,
    actions: Seq<Action<D>>,
) -> bool {
    &&& states.len() == actions.len() + 1
    &&& states[0].consistent()
    &&& forall|i: int|
        0 <= i < actions.len() ==> advances(states[i], states[i + 1], #[trigger] actions[i])
}

/// All along a run the state is consistent, the process, whether and how it is
/// waited for and signalled, its deadline and the limit on what is captured are
/// the same, and what was captured stays captured.
pub proof fn law_run_keeps_what_it_has<D, F: FnMut(&[u8]) -> bool>(
    states: Seq<Watch<D, F>>,
    actions: Seq<Action<D>>,
    i: int,
    k: int,
)
    requires
        is_run(states, actions),
        0 <= i <= k < states.len(),
    ensures
        states[k].consistent(),
        states[k].pid == states[i].pid,
        states[k].wait == states[i].wait,
        states[k].group == states[i].group,
        states[k].drain.captured.limit == states[i].drain.captured.limit,
        states[k].watchdog.timeout_ms == states[i].watchdog.timeout_ms,
        states[k].watchdog.kill_grace_ms == states[i].watchdog.kill_grace_ms,
        states[k].watchdog.cancel == states[i].watchdog.cancel,
        states[i].status is Some ==> states[k].status == states[i].status,
        states[i].drain.captured.stdout.is_prefix_of(states[k].drain.captured.stdout),
        states[i].drain.captured.stderr.is_prefix_of(states[k].drain.captured.stderr),
    decreases k,
{
    if k > 0 {
        law_run_keeps_what_it_has(states, actions, if i < k {
            i
        } else {
            k - 1
        }, k - 1);
        let (pre, post, action) = (states[k - 1], states[k], actions[k - 1]);
        law_states_stay_consistent(pre, post, action);
        lemma_steps_are_sound(pre, post, action);
        law_only_the_clock_moves_the_watchdog(pre, post, action);
        if i < k {
            let (a, b, c) = (states[i].drain.captured, pre.drain.captured, post.drain.captured);
            assert(a.stdout.is_prefix_of(c.stdout));
            assert(a.stderr.is_prefix_of(c.stderr));
        }
    }
}

/// What is known of the watchdog once a signal has been asked for.
proof fn lemma_after_signal<D, F: FnMut(&[u8]) -> bool>(
    states: Seq<Watch<D, F>>,
    actions: Seq<Action<D>>,
    i: int,
    k: int,
)
    requires
        is_run(states, actions),
        0 <= i < actions.len(),
        actions[i] is Signal,
        i + 1 < k < states.len(),
    ensures
        states[k].watchdog.state != KillState::NothingSent,
        actions[i]->signal == SIGKILL ==> states[k].watchdog.state == KillState::KillSent,
        states[k].watchdog.state matches KillState::TermSent(at) ==> at
            == states[i + 1].watchdog.looked_at,
        states[k].phase matches Phase::Signalling(signal) ==> signal == SIGKILL,
    decreases k,
{
    let (pre, post, action) = (states[k - 1], states[k], actions[k - 1]);
    law_only_the_clock_moves_the_watchdog(pre, post, action);
    if k - 1 == i + 1 {
        law_only_the_clock_moves_the_watchdog(states[i], pre, actions[i]);
    } else {
        lemma_after_signal(states, actions, i, k - 1);
    }
}

/// In a run a process is signalled at most twice: the first signal of two is
/// SIGTERM, the second is SIGKILL, and the grace period lies between the looks at
/// the clock that called for them.
pub proof fn law_run_signals_once<D, F: FnMut(&[u8]) -> bool>(
    states: Seq<Watch<D, F>>,
    actions: Seq<Action<D>>,
    i: int,
    j: int,
)
    requires
        is_run(states, actions),
        0 <= i < j < actions.len(),
        actions[i] is Signal,
        actions[j] is Signal,
    ensures
        actions[i]->signal == SIGTERM,
        actions[j]->signal == SIGKILL,
        states[j + 1].watchdog.looked_at - states[i + 1].watchdog.looked_at
            > states[i].watchdog.kill_grace_ms * 1_000_000,
{
    law_only_the_clock_moves_the_watchdog(states[i], states[i + 1], actions[i]);
    law_only_the_clock_moves_the_watchdog(states[j], states[j + 1], actions[j]);
    law_run_keeps_what_it_has(states, actions, i, j);
    assert(advances(states[i + 1], states[i + 2], actions[i + 1]));
    law_only_the_clock_moves_the_watchdog(states[i + 1], states[i + 2], actions[i + 1]);
    lemma_after_signal(states, actions, i, j);
}

/// A process that is seen to be past its deadline is signalled at that look,
/// where its policy calls for it and it has not been signalled yet.
pub proof fn law_overdue_process_is_signalled<D, F: FnMut(&[u8]) -> bool>(
    pre: Watch<D, F>,
    post: Watch<D, F>,
    action: Action<D>,
)
    requires
        pre.phase is Clock,
        advances(pre, post, action),
        pre.watchdog.overdue(post.watchdog.looked_at),
        pre.watchdog.state == KillState::NothingSent,
        pre.watchdog.cancel != CancelPolicy::DoNothing,
    ensures
        post.watchdog.timed_out,
        action matches Action::Signal { signal, .. } && signal == (if pre.watchdog.cancel
            == CancelPolicy::Kill {
            SIGKILL
        } else {
            SIGTERM
        }),
{
    law_only_the_clock_moves_the_watchdog(pre, post, action);
}

/// A run that finishes knows how the process ended exactly where the process was
/// waited for.
pub proof fn law_run_knows_the_status_it_waited_for<D, F: FnMut(&[u8]) -> bool>(
    states: Seq<Watch<D, F>>,
    actions: Seq<Action<D>>,
    k: int,
)
    requires
        is_run(states, actions),
        0 <= k < actions.len(),
        actions[k] is Finish,
    ensures
        states[k + 1].status is Some <==> states[0].wait,
        states[0].wait ==> states[k + 1].drain.is_done(),
        !states[0].wait ==> !states[k + 1].watchdog.timed_out,
{
    law_run_keeps_what_it_has(states, actions, 0, k);
    law_run_keeps_what_it_has(states, actions, 0, k + 1);
    law_finish_is_complete(states[k], states[k + 1], actions[k]);
}

/// The outcome of a read, and what it was read into.
pub struct ReadBack {
    pub outcome: Result<Option<usize>, SysError>,
    pub chunk: Seq<u8>,
}

/// Whether `reads` holds, for each step of a run that takes a read, what was read.
pub open spec fn are_reads<D, F: FnMut(&[u8]) -> bool>(
    states: Seq<Watch<D, F>>,
    actions: Seq<Action<D>>,
    reads: Seq<ReadBack>,
) -> bool {
    &&& reads.len() == actions.len()
    &&& forall|i: int|
        0 <= i < actions.len() && states[i].phase is Reading ==> takes_read(
            states[i],
            states[i + 1],
            (#[trigger] reads[i]).outcome,
            reads[i].chunk,
            actions[i],
        ) && read_fits(states[i], reads[i].outcome, reads[i].chunk)
}

/// Every run has its reads.
pub proof fn law_run_has_reads<D, F: FnMut(&[u8]) -> bool>(
    states: Seq<Watch<D, F>>,
    actions: Seq<Action<D>>,
)
    requires
        is_run(states, actions),
    ensures
        exists|reads: Seq<ReadBack>| are_reads(states, actions, reads),
{
    let reads = Seq::new(
        actions.len(),
        |i: int|
            choose|read: ReadBack| #[trigger]
                takes_read(
                    states[i],
                    states[i + 1],
                    read.outcome,
                    read.chunk,
                    actions[i],
                ) && read_fits(states[i], read.outcome, read.chunk),
    );
    assert forall|i: int| 0 <= i < actions.len() && states[i].phase is Reading implies takes_read(
        states[i],
        states[i + 1],
        (#[trigger] reads[i]).outcome,
        reads[i].chunk,
        actions[i],
    ) && read_fits(states[i], reads[i].outcome, reads[i].chunk) by {
        let (pre, post, action) = (states[i], states[i + 1], actions[i]);
        assert(advances(pre, post, action));
        let (outcome, chunk) = choose|outcome: Result<Option<usize>, SysError>, chunk: Seq<u8>|
         #[trigger]
            takes_read(pre, post, outcome, chunk, action) && read_fits(pre, outcome, chunk);
        let read = ReadBack { outcome, chunk };
        assert(takes_read(pre, post, read.outcome, read.chunk, action) && read_fits(
            pre,
            read.outcome,
            read.chunk,
        ));
    }
    assert(are_reads(states, actions, reads));
}

/// The chunks that were read between two states of a run, in order, each with
/// whether it came from stdout.
pub open spec fn chunks_between<D, F>(
    states: Seq<Watch<D, F>>,
    reads: Seq<ReadBack>,
    i: int,
    k: int,
) -> Seq<(bool, Seq<u8>)>
    decreases k - i,
{
    if k <= i {
        Seq::empty()
    } else {
        let before = chunks_between(states, reads, i, k - 1);
        match (states[k - 1].phase, reads[k - 1].outcome) {
            (Phase::Reading { is_stdout, .. }, Ok(Some(n))) if n > 0 => before.push(
                (is_stdout, reads[k - 1].chunk.take(n as int)),
            ),
            _ => before,
        }
    }
}

/// What is captured at a state of a run is what was captured at an earlier one
/// and the chunks that were read in between, as far as there was room for them.
pub proof fn law_run_captures_what_it_reads<D, F: FnMut(&[u8]) -> bool>(
    states: Seq<Watch<D, F>>,
    actions: Seq<Action<D>>,
    reads: Seq<ReadBack>,
    i: int,
    k: int,
)
    requires
        is_run(states, actions),
        are_reads(states, actions, reads),
        0 <= i <= k < states.len(),
    ensures
        states[k].drain.captured == buffer::captured_after(
            states[i].drain.captured,
            chunks_between(states, reads, i, k),
        ),
        buffer::within_wants(states[i].drain.captured, chunks_between(states, reads, i, k)),
    decreases k - i,
{
    if i < k {
        law_run_captures_what_it_reads(states, actions, reads, i, k - 1);
        let start = states[i].drain.captured;
        let before = chunks_between(states, reads, i, k - 1);
        let chunks = chunks_between(states, reads, i, k);
        let (pre, post, action) = (states[k - 1], states[k], actions[k - 1]);
        let read = reads[k - 1];
        assert(advances(pre, post, action));
        if let Phase::Reading { is_stdout, hangup } = pre.phase {
            law_reads_are_captured(
                pre,
                post,
                is_stdout,
                hangup,
                read.outcome,
                read.chunk,
                action,
            );
        } else {
            law_only_reading_ends_output(pre, post, action);
        }
        if chunks != before {
            assert(chunks.drop_last() =~= before);
            assert forall|j: int| 0 <= j < chunks.len() implies (#[trigger] chunks[j]).1.len()
                <= buffer::captured_after(start, chunks.take(j)).want() by {
                if j < before.len() {
                    assert(chunks[j] == before[j]);
                    assert(chunks.take(j) =~= before.take(j));
                } else {
                    assert(chunks.take(j) =~= before);
                }
            }
        }
    }
}

/// In a run that starts with nothing captured, what is captured of a stream is
/// where what was read from it starts, and all of it as long as there is room;
/// and both streams together stay within the limit.
pub proof fn law_run_captures_a_prefix<D, F: FnMut(&[u8]) -> bool>(
    states: Seq<Watch<D, F>>,
    actions: Seq<Action<D>>,
    reads: Seq<ReadBack>,
    k: int,
    is_stdout: bool,
)
    requires
        is_run(states, actions),
        are_reads(states, actions, reads),
        0 <= k < states.len(),
        states[0].drain.captured.stdout.len() == 0,
        states[0].drain.captured.stderr.len() == 0,
    ensures
        ({
            let end = states[k].drain.captured;
            let read = buffer::bytes_read(chunks_between(states, reads, 0, k), is_stdout);
            &&& end.stream(is_stdout).is_prefix_of(read)
            &&& end.room() > 0 ==> end.stream(is_stdout) == read
            &&& end.stdout.len() + end.stderr.len() <= states[0].drain.captured.limit
        }),
{
    law_run_captures_what_it_reads(states, actions, reads, 0, k);
    let start = states[0].drain.captured;
    assert(start =~= (buffer::Captured {
        stdout: Seq::empty(),
        stderr: Seq::empty(),
        limit: start.limit,
    }));
    buffer::law_capture_is_a_prefix(
        start.limit,
        chunks_between(states, reads, 0, k),
        is_stdout,
    );
}

/// What is registered next: stdin's pipe for writing, then stdout's and then
/// stderr's for reading, each as long as it has no token. Once each has one, the
/// process is looked at where it is waited for, and all is over where it is not.
pub proof fn law_what_is_registered_next<D, F>(w: Watch<D, F>)
    ensures
        ({
            let stdin = w.drain.stdin matches Some(slot) && slot.token is None;
            let stdout = w.drain.stdout matches Some(slot) && slot.token is None;
            let stderr = w.drain.stderr matches Some(slot) && slot.token is None;
            let (post, action) = w.registering();
            &&& post == (Watch { phase: post.phase, ..w })
            &&& stdin ==> post.phase == Phase::Registering(Stream::Stdin) && action == (
            Action::<D>::Register { stream: Stream::Stdin, readable: false, writable: true })
            &&& !stdin && stdout ==> post.phase == Phase::Registering(Stream::Stdout) && action == (
            Action::<D>::Register { stream: Stream::Stdout, readable: true, writable: false })
            &&& !stdin && !stdout && stderr ==> post.phase == Phase::Registering(Stream::Stderr)
                && action == (Action::<D>::Register {
                stream: Stream::Stderr,
                readable: true,
                writable: false,
            })
            &&& !stdin && !stdout && !stderr && w.wait ==> post.phase is FirstCheck
                && action is CheckChild
            &&& !stdin && !stdout && !stderr && !w.wait ==> post.phase is Over && action is Finish
        }),
{
}

/// A registered pipe has the token that it was given, and its descriptor; all
/// others have what they had. A failure ends it all, and is reported as it is.
pub proof fn law_tokens_are_taken<D, F>(
    w: Watch<D, F>,
    stream: Stream,
    other: Stream,
    token: Token,
    e: SysError,
)
    requires
        w.drain.slot(stream) is Some,
    ensures
        w.registered(stream, Ok(token)).0.drain.slot(stream) matches Some(slot) && slot.token
            == Some(token) && slot.fd == w.drain.slot(stream)->0.fd,
        other != stream ==> w.registered(stream, Ok(token)).0.drain.slot(other) == w.drain.slot(
            other,
        ),
        w.registered(stream, Ok(token)).0.drain.captured == w.drain.captured,
        w.registered(stream, Ok(token)).0.drain.unwritten == w.drain.unwritten,
        w.registered(stream, Ok(token)).0.watchdog == w.watchdog,
        w.registered(stream, Err(e)) == (
            Watch { phase: Phase::Over, ..w },
            Action::<D>::Fail(e),
        ),
{
}

/// What is waited for next. As long as a pipe is left, its events: as long as the
/// clock allows while the process runs, and a millisecond at most once it has
/// ended. Then the process: ten milliseconds at a time at most as long as
/// something can come of its deadline, and without limit once nothing can. And
/// once its end is known, all is over.
pub proof fn law_what_is_waited_for<D, F>(w: Watch<D, F>)
    requires
        w.patience >= -1,
    ensures
        ({
            let pipes = w.drain.stdin is Some || w.drain.stdout is Some || w.drain.stderr is Some;
            let (post, action) = w.deciding();
            &&& post == (Watch { phase: post.phase, ..w })
            &&& pipes ==> post.phase is Polling && (action matches Action::Poll { timeout }
                && timeout == if w.status is None {
                w.patience as int
            } else if w.patience == 0 {
                0
            } else {
                1
            })
            &&& !pipes && w.status is Some ==> post.phase is Over && action is Finish
            &&& !pipes && w.status is None && w.watchdog.pending() ==> post.phase is Polling && (
            action matches Action::Poll { timeout } && timeout == if 0 <= w.patience <= 10 {
                w.patience as int
            } else {
                10
            })
            &&& !pipes && w.status is None && !w.watchdog.pending() ==> post.phase is Awaiting
                && action is AwaitChild
        }),
{
}

/// How a round starts: with the clock where there is a timeout. Without one there
/// is no limit to waiting, and the process is looked at unless its end is known.
pub proof fn law_how_a_round_starts<D, F>(w: Watch<D, F>)
    ensures
        w.watchdog.timeout_ms is Some ==> w.new_round() == (
            Watch { phase: Phase::Clock, ..w },
            Action::<D>::ReadClock,
        ),
        w.watchdog.timeout_ms is None && w.status is None ==> w.new_round() == (
            Watch { patience: -1i32, phase: Phase::Checking, ..w },
            Action::<D>::CheckChild,
        ),
        w.watchdog.timeout_ms is None && w.status is Some ==> w.new_round() == (Watch {
            patience: -1i32,
            ..w
        }).deciding(),
        w.status is None ==> w.checking() == (
            Watch { phase: Phase::Checking, ..w },
            Action::<D>::CheckChild,
        ),
        w.status is Some ==> w.checking() == w.deciding(),
{
}

/// What a look at the process has shown is its status from then on, whichever look
/// it was; the first look is followed by a round, and every other by waiting. A
/// failure ends it all, and is reported as it is.
pub proof fn law_looks_show_the_status<D, F>(
    w: Watch<D, F>,
    seen: Option<ExitStatus>,
    e: SysError,
)
    requires
        w.status is None,
    ensures
        w.checked(Ok(seen)).0.status == seen,
        w.checked(Ok(seen)).0.drain == w.drain,
        w.checked(Ok(seen)).0.watchdog == w.watchdog,
        w.phase is FirstCheck ==> w.checked(Ok(seen)) == (Watch { status: seen, ..w }).new_round(),
        w.phase is Checking ==> w.checked(Ok(seen)) == (Watch { status: seen, ..w }).deciding(),
        w.checked(Err(e)) == (Watch { phase: Phase::Over, ..w }, Action::<D>::Fail(e)),
{
}

/// The end that was waited for is the status, and all is over. A failure ends it
/// all too, and is reported as it is.
pub proof fn law_the_end_is_the_status<D, F>(w: Watch<D, F>, status: ExitStatus, e: SysError)
    ensures
        w.awaited(Ok(status)).0 == (Watch { status: Some(status), phase: Phase::Over, ..w }),
        w.awaited(Ok(status)).1 is Finish,
        w.awaited(Err(e)) == (Watch { phase: Phase::Over, ..w }, Action::<D>::Fail(e)),
{
}

/// A look at the clock: before the timeout is over no signal is sent; at the first
/// look after it SIGKILL (9) or SIGTERM (15) is, as the policy has it, to the
/// group where there is one. The process counts as timed out from then on.
pub proof fn law_looks_at_the_clock<D, F>(w: Watch<D, F>, ms: u32, elapsed: u128)
    requires
        w.watchdog.timeout_ms == Some(ms),
    ensures
        ({
            let (post, action) = w.clocked(elapsed);
            &&& post.watchdog.looked_at == elapsed
            &&& post.watchdog.state == w.watchdog.state
            &&& post.patience == w.watchdog.patience(elapsed)
            &&& post.status == w.status && post.drain == w.drain && post.events == w.events
            &&& elapsed < ms * 1_000_000 ==> post.watchdog.timed_out == w.watchdog.timed_out && !(
            action is Signal)
            &&& elapsed >= ms * 1_000_000 ==> post.watchdog.timed_out
            &&& elapsed >= ms * 1_000_000 && w.watchdog.state == KillState::NothingSent
                && w.watchdog.cancel == CancelPolicy::Kill ==> post.phase == Phase::Signalling(9)
                && action == (Action::<D>::Signal { signal: 9, group: w.group })
            &&& elapsed >= ms * 1_000_000 && w.watchdog.state == KillState::NothingSent
                && w.watchdog.cancel == CancelPolicy::Graceful ==> post.phase == Phase::Signalling(
                15,
            ) && action == (Action::<D>::Signal { signal: 15, group: w.group })
            &&& !(action is Signal) && w.status is None ==> post.phase is Checking
                && action is CheckChild
        }),
{
    watchdog::law_signals_are_due_from_the_timeout_on(w.watchdog, ms, elapsed);
}

/// A signal that was sent, or could not be, changes what is known to have been
/// sent and nothing else, and the process is looked at next.
pub proof fn law_signals_are_noted<D, F>(w: Watch<D, F>, signal: i32, ok: bool)
    ensures
        w.signalled(signal, ok).0.watchdog.state == (if signal == 15 && ok {
            KillState::TermSent(w.watchdog.looked_at)
        } else {
            KillState::KillSent
        }),
        w.signalled(signal, ok).0.watchdog.timed_out == w.watchdog.timed_out,
        w.signalled(signal, ok).0.drain == w.drain,
        w.signalled(signal, ok).0.status == w.status,
        w.signalled(signal, ok).0.patience == w.patience,
        w.status is None ==> w.signalled(signal, ok).0.phase is Checking && w.signalled(
            signal,
            ok,
        ).1 is CheckChild,
{
}

/// Events that were waited for are all handled, in order; none at all leads to
/// the next round. A failure ends it all, and is reported as it is.
pub proof fn law_events_are_handled_in_order<D, F>(
    w: Watch<D, F>,
    event: Event,
    rest: Seq<Event>,
    e: SysError,
)
    ensures
        w.polled(Ok(Seq::empty())) == (Watch { events: Seq::empty(), ..w }).new_round(),
        w.polled(Ok(seq![event] + rest)) == (Watch { events: seq![event] + rest, ..w }).handling(),
        w.drain.target(event) is None ==> (Watch { events: seq![event] + rest, ..w }).handling()
            == (Watch { events: rest, ..w }).handling(),
        w.polled(Err(e)) == (Watch { phase: Phase::Over, ..w }, Action::<D>::Fail(e)),
{
    assert((seq![event] + rest).skip(1) =~= rest);
}

/// What an event about a pipe leads to. An output pipe that is readable or in
/// trouble is read from, stdout before stderr, and given up afterwards where it is
/// in trouble. A stdin in trouble is given up at once, with what was left to
/// write; a stdin that can be written to is written to.
pub proof fn law_what_an_event_leads_to<D, F>(w: Watch<D, F>, event: Event, rest: Seq<Event>)
    requires
        w.events == seq![event] + rest,
        w.drain.captured.want() <= usize::MAX,
    ensures
        ({
            let (post, action) = w.handling();
            let stdout = w.drain.stdout matches Some(slot) && slot.token == Some(event.token);
            let stderr = w.drain.stderr matches Some(slot) && slot.token == Some(event.token);
            let stdin = w.drain.stdin matches Some(slot) && slot.token == Some(event.token);
            let left = w.drain.unwritten is Some && w.drain.unwritten->0.len() > 0;
            &&& stdout && (event.readable || event.error) ==> post == (Watch {
                events: rest,
                phase: Phase::Reading { is_stdout: true, hangup: event.error },
                ..w
            }) && (action matches Action::Read { is_stdout, len } && is_stdout && len
                == w.drain.captured.want())
            &&& stderr && !stdout && (event.readable || event.error) ==> post == (Watch {
                events: rest,
                phase: Phase::Reading { is_stdout: false, hangup: event.error },
                ..w
            }) && (action matches Action::Read { is_stdout, len } && !is_stdout && len
                == w.drain.captured.want())
            &&& stdin && !stdout && !stderr && event.error ==> post == (Watch {
                events: rest,
                phase: Phase::Forgetting,
                drain: Draining { stdin: None, unwritten: None, ..w.drain },
                ..w
            }) && action == Action::<D>::Forget(w.drain.stdin->0)
            &&& stdin && !stdout && !stderr && !event.error && event.writable && left ==> post == (
            Watch { events: rest, phase: Phase::Writing, ..w }) && (action matches Action::Write {
                len,
            } && 0 < len <= w.drain.unwritten->0.len() && (len < w.drain.unwritten->0.len() ==> len
                == 65536))
            &&& stdin && !stdout && !stderr && !event.error && event.writable && !left ==> (
            post, action) == (Watch {
                events: rest,
                drain: Draining { stdin: None, unwritten: None, ..w.drain },
                ..w
            }).handling()
            &&& !stdin && !stdout && !stderr ==> (post, action) == (Watch {
                events: rest,
                ..w
            }).handling()
        }),
{
    assert(w.events.skip(1) =~= rest);
    assert(w.events[0] == event);
    drain::law_how_writing_stdin_starts(w.drain);
}

/// What comes of a write to stdin. What the pipe took is not written again, and
/// the rest is offered next; once all is written, or the pipe is closed, it is
/// given up, and the next event is handled; where it would block, the next event is
/// handled too. Any other failure ends it all, and is reported as it is.
pub proof fn law_writes_go_on<D, F>(w: Watch<D, F>, outcome: Result<Option<usize>, SysError>)
    requires
        w.drain.unwritten matches Some(left) && left.len() > 0,
    ensures
        ({
            let left = w.drain.unwritten->0;
            let done = Watch { drain: Draining { stdin: None, unwritten: None, ..w.drain }, ..w };
            match outcome {
                Ok(Some(n)) => {
                    &&& 0 < n < left.len() ==> w.wrote(outcome).0 == (Watch {
                        drain: Draining {
                            unwritten: Some(left.subrange(n as int, left.len() as int)),
                            ..w.drain
                        },
                        ..w
                    }) && (w.wrote(outcome).1 matches Action::Write { len } && len == if left.len()
                        - n < 65536 {
                        left.len() - n
                    } else {
                        65536
                    })
                    &&& n == 0 || n >= left.len() ==> w.wrote(outcome) == done.handling()
                },
                Ok(None) => w.wrote(outcome) == w.handling(),
                Err(e) => if e->code == 32 {
                    w.wrote(outcome) == done.handling()
                } else {
                    &&& w.wrote(outcome).1 == Action::<D>::Fail(e)
                    &&& w.wrote(outcome).0.phase is Over
                },
            }
        }),
{
    writer::law_what_comes_of_a_write(w.drain.unwritten->0, outcome);
    drain::law_what_comes_of_writing_stdin(w.drain, outcome);
}

/// What comes of a read from an output pipe. As long as bytes come, reading goes
/// on, unless a closure may end it. At its end the pipe is given up; where reading
/// would block, a pipe in trouble is given up and any other kept for later. A
/// failure ends it all, except on a pipe in trouble, which is given up.
pub proof fn law_reads_go_on<D, F: FnMut(&[u8]) -> bool>(
    pre: Watch<D, F>,
    post: Watch<D, F>,
    is_stdout: bool,
    hangup: bool,
    outcome: Result<Option<usize>, SysError>,
    chunk: Seq<u8>,
    action: Action<D>,
)
    requires
        pre.phase == (Phase::Reading { is_stdout, hangup }),
        pre.drain.captured.stdout.len() + pre.drain.captured.stderr.len()
            <= pre.drain.captured.limit,
        takes_read(pre, post, outcome, chunk, action),
    ensures
        ({
            let slot = if is_stdout {
                pre.drain.stdout
            } else {
                pre.drain.stderr
            };
            let gone = if is_stdout {
                Draining { stdout: None, ..pre.drain }
            } else {
                Draining { stderr: None, ..pre.drain }
            };
            match outcome {
                Ok(Some(n)) if n > 0 => {
                    &&& !is_stdout || pre.drain.early_exit is None ==> post.phase == pre.phase
                        && post.drain.stdout == pre.drain.stdout && post.drain.stderr
                        == pre.drain.stderr && post.events == pre.events && (action
                        matches Action::Read { is_stdout: source, len } && source == is_stdout && len
                        == post.drain.captured.want())
                },
                Err(e) if !hangup => action == Action::<D>::Fail(e) && post == (Watch {
                    phase: Phase::Over,
                    ..pre
                }),
                Ok(None) if !hangup => (post, action) == pre.handling(),
                Ok(Some(_)) if !hangup => (post, action) == (Watch { drain: gone, ..pre }).handling(),
                _ => post == (Watch { drain: gone, phase: Phase::Forgetting, ..pre }) && action
                    == Action::<D>::Forget(slot->0),
            }
        }),
{
    let (mid, step) = choose|mid: Draining<D, F>, step: DrainStep<D>| #[trigger]
        drain::takes_read(pre.drain, mid, is_stdout, outcome, chunk, step) && (post, action)
            == pre.read_on(is_stdout, hangup, mid, step);
    drain::law_what_comes_of_reading_output(pre.drain, mid, is_stdout, outcome, chunk, step);
}

proof fn lemma_handling_keeps_unwritten<D, F>(pre: Watch<D, F>)
    ensures
        pre.handling().0.drain.unwritten == pre.drain.unwritten || pre.handling().0.drain.unwritten
            is None,
    decreases pre.events.len(),
{
    if pre.events.len() > 0 {
        let event = pre.events[0];
        let rest = Watch { events: pre.events.skip(1), ..pre };
        match pre.drain.target(event) {
            None => {
                lemma_handling_keeps_unwritten(rest);
            },
            Some(Stream::Stdin) => {
                if !event.error {
                    let (drain, step) = drain::write_started(pre.drain);
                    if let DrainStep::Done(Ok(_)) = step {
                        lemma_handling_keeps_unwritten(Watch { drain, ..rest });
                    }
                }
            },
            Some(_) => {},
        }
    }
}

/// What is left to write is, at each step, what was left before, or what is left
/// of that once the pipe has taken bytes from its front, or nothing any more; and
/// the pipe takes bytes only where it is written to.
pub proof fn law_stdin_is_written_from_the_front<D, F: FnMut(&[u8]) -> bool>(
    pre: Watch<D, F>,
    post: Watch<D, F>,
    action: Action<D>,
)
    requires
        pre.consistent(),
        advances(pre, post, action),
    ensures
        post.drain.unwritten is Some ==> pre.drain.unwritten is Some && exists|n: int|
            0 <= n <= pre.drain.unwritten->0.len() && post.drain.unwritten->0
                == #[trigger] pre.drain.unwritten->0.skip(n),
        !(pre.phase is Writing) && post.drain.unwritten is Some ==> post.drain.unwritten
            == pre.drain.unwritten,
{
    if pre.drain.unwritten is Some {
        assert(pre.drain.unwritten->0.skip(0) =~= pre.drain.unwritten->0);
    }
    match pre.phase {
        Phase::Polling => {
            let reply = choose|reply: Result<Seq<Event>, SysError>|
                (post, action) == #[trigger] pre.polled(reply);
            if let Ok(events) = reply {
                lemma_handling_keeps_unwritten(Watch { events, ..pre });
            }
        },
        Phase::Forgetting => {
            lemma_handling_keeps_unwritten(pre);
        },
        Phase::Writing => {
            let outcome = choose|outcome: Result<Option<usize>, SysError>|
                (post, action) == #[trigger] pre.wrote(outcome);
            let (drain, step) = drain::write_taken(pre.drain, outcome);
            if let DrainStep::Done(Ok(_)) = step {
                lemma_handling_keeps_unwritten(Watch { drain, ..pre });
            }
            if let Ok(Some(n)) = outcome {
                assert(pre.drain.unwritten->0.skip(n as int) == pre.drain.unwritten->0.skip(
                    n as int,
                ));
            }
        },
        Phase::Reading { is_stdout, hangup } => {
            let (outcome, chunk) = choose|
                outcome: Result<Option<usize>, SysError>,
                chunk: Seq<u8>,
            | #[trigger]
                takes_read(pre, post, outcome, chunk, action) && read_fits(pre, outcome, chunk);
            let (mid, step) = choose|mid: Draining<D, F>, step: DrainStep<D>| #[trigger]
                drain::takes_read(pre.drain, mid, is_stdout, outcome, chunk, step) && (post, action)
                    == pre.read_on(is_stdout, hangup, mid, step);
            if let DrainStep::Done(Ok(_)) = step {
                if !hangup {
                    lemma_handling_keeps_unwritten(Watch { drain: mid, ..pre });
                }
            }
        },
        _ => {},
    }
}

} // verus!
