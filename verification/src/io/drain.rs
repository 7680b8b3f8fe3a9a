//! The pipes of one process.

use vstd::prelude::*;
use crate::io::buffer;
use crate::io::buffer::{BufferState, ReadStep};
use crate::io::writer;
use crate::io::writer::{WriteStep, WriterState};
use crate::reactor::poll::{Event, Token};
use crate::spawn::error::SysError;

verus! {

/// One of the standard streams of a process.
#[derive(Clone, Copy, Debug, PartialEq, Eq, Structural)]
pub enum Stream {
    Stdin,
    Stdout,
    Stderr,
}

/// A descriptor and the token that stands for it.
#[derive(Debug)]
pub struct FdSlot<D> {
    /// Token of this descriptor, once it is registered.
    pub token: Option<Token>,
    /// The descriptor.
    pub fd: D,
}

/// Orchestrates the non-blocking I/O of one process.
///
/// It holds the parent's ends of the process's pipes, what was captured from
/// them and what is left to write. A descriptor that leaves it is closed by
/// whoever gets it, or by being dropped.
pub struct DrainState<D, F> where F: FnMut(&[u8]) -> bool {
    pub stdout_slot: Option<FdSlot<D>>,
    pub stderr_slot: Option<FdSlot<D>>,
    pub stdin_slot: Option<FdSlot<D>>,
    pub buffer: BufferState,
    pub writer: WriterState,
    pub early_exit: Option<F>,
}

/// What to do next with a pipe of a process.
#[derive(Debug)]
pub enum DrainStep<D> {
    /// Move at most `len` bytes.
    Transfer {
        len: usize,
    },
    /// The pipe is dealt with for now. One that is finished is handed over.
    Done(Result<Option<FdSlot<D>>, SysError>),
}

/// The state of a process's I/O.
pub struct Draining<D, F> {
    pub stdin: Option<FdSlot<D>>,
    pub stdout: Option<FdSlot<D>>,
    pub stderr: Option<FdSlot<D>>,
    /// What was captured.
    pub captured: buffer::Captured,
    /// What is left to write.
    pub unwritten: Option<Seq<u8>>,
    pub early_exit: Option<F>,
}

impl<D, F: FnMut(&[u8]) -> bool> View for DrainState<D, F> {
    type V = Draining<D, F>;

    open spec fn view(&self) -> Draining<D, F> {
        Draining {
            stdin: self.stdin_slot,
            stdout: self.stdout_slot,
            stderr: self.stderr_slot,
            captured: self.buffer@,
            unwritten: self.writer@,
            early_exit: self.early_exit,
        }
    }
}

/// The stream that is read: stdout or stderr.
pub open spec fn source(is_stdout: bool) -> Stream {
    if is_stdout {
        Stream::Stdout
    } else {
        Stream::Stderr
    }
}

/// A descriptor that no token stands for yet.
pub open spec fn fresh_slot<D>(fd: Option<D>) -> Option<FdSlot<D>> {
    match fd {
        Some(fd) => Some(FdSlot { token: None, fd }),
        None => None,
    }
}

impl<D, F> Draining<D, F> {
    /// The slot of a stream.
    pub open spec fn slot(self, stream: Stream) -> Option<FdSlot<D>> {
        match stream {
            Stream::Stdin => self.stdin,
            Stream::Stdout => self.stdout,
            Stream::Stderr => self.stderr,
        }
    }

    /// With the slot of a stream replaced.
    pub open spec fn with_slot(self, stream: Stream, slot: Option<FdSlot<D>>) -> Self {
        match stream {
            Stream::Stdin => Draining { stdin: slot, ..self },
            Stream::Stdout => Draining { stdout: slot, ..self },
            Stream::Stderr => Draining { stderr: slot, ..self },
        }
    }

    /// Whether no pipe is left.
    pub open spec fn is_done(self) -> bool {
        self.stdin is None && self.stdout is None && self.stderr is None
    }

    /// The slots that are left: stdin, stdout, stderr.
    pub open spec fn slots(self) -> Seq<FdSlot<D>> {
        let a = match self.stdin {
            Some(slot) => seq![slot],
            None => seq![],
        };
        let b = match self.stdout {
            Some(slot) => seq![slot],
            None => seq![],
        };
        let c = match self.stderr {
            Some(slot) => seq![slot],
            None => seq![],
        };
        a + b + c
    }

    /// Whether the stream's pipe is there and waits for a token.
    pub open spec fn awaits_token(self, stream: Stream) -> bool {
        self.slot(stream) matches Some(slot) && slot.token is None
    }

    /// The first pipe that waits for a token: stdin, stdout, stderr.
    pub open spec fn next_unregistered(self) -> Option<Stream> {
        if self.awaits_token(Stream::Stdin) {
            Some(Stream::Stdin)
        } else if self.awaits_token(Stream::Stdout) {
            Some(Stream::Stdout)
        } else if self.awaits_token(Stream::Stderr) {
            Some(Stream::Stderr)
        } else {
            None
        }
    }

    /// Whether `event` is about the stream's pipe and calls for its handling:
    /// it is in error, or ready for what is done with the pipe.
    pub open spec fn concerns(self, stream: Stream, event: Event) -> bool {
        &&& self.slot(stream) matches Some(slot) && slot.token == Some(event.token)
        &&& event.error || match stream {
            Stream::Stdin => event.writable,
            _ => event.readable,
        }
    }

    /// The pipe that `event` calls for the handling of: stdout, stderr, stdin.
    pub open spec fn target(self, event: Event) -> Option<Stream> {
        if self.concerns(Stream::Stdout, event) {
            Some(Stream::Stdout)
        } else if self.concerns(Stream::Stderr, event) {
            Some(Stream::Stderr)
        } else if self.concerns(Stream::Stdin, event) {
            Some(Stream::Stdin)
        } else {
            None
        }
    }
}

/// What becomes of a pipe once a transfer on it is over: a finished pipe leaves
/// its slot and is handed over, and otherwise it stays.
pub open spec fn settled<D, F>(
    pre: Draining<D, F>,
    stream: Stream,
    finished: Result<bool, SysError>,
) -> (Draining<D, F>, DrainStep<D>) {
    match finished {
        Ok(true) => (pre.with_slot(stream, None), DrainStep::Done(Ok(pre.slot(stream)))),
        Ok(false) => (pre, DrainStep::Done(Ok(None))),
        Err(e) => (pre, DrainStep::Done(Err(e))),
    }
}

/// What becomes of stdin's pipe after a write step that leaves `left` to write.
pub open spec fn write_settled<D, F>(
    pre: Draining<D, F>,
    left: Option<Seq<u8>>,
    write: WriteStep,
) -> (Draining<D, F>, DrainStep<D>) {
    let mid = Draining { unwritten: left, ..pre };
    match write {
        WriteStep::Write { len } => (mid, DrainStep::Transfer { len }),
        WriteStep::Done(finished) => settled(mid, Stream::Stdin, finished),
    }
}

/// The state once writing has started, and what to do next.
pub open spec fn write_started<D, F>(pre: Draining<D, F>) -> (Draining<D, F>, DrainStep<D>) {
    if pre.stdin is None {
        (pre, DrainStep::Done(Ok(None)))
    } else {
        let (left, write) = writer::proceed(pre.unwritten);
        write_settled(pre, left, write)
    }
}

/// The state once the outcome of a write is taken, and what to do next.
pub open spec fn write_taken<D, F>(
    pre: Draining<D, F>,
    outcome: Result<Option<usize>, SysError>,
) -> (Draining<D, F>, DrainStep<D>) {
    let (left, write) = writer::written(pre.unwritten->0, outcome);
    write_settled(pre, left, write)
}

/// What becomes of an output pipe after a read step.
pub open spec fn read_settled<D, F>(
    pre: Draining<D, F>,
    is_stdout: bool,
    read: ReadStep,
) -> (Draining<D, F>, DrainStep<D>) {
    match read {
        ReadStep::Read { want } => (pre, DrainStep::Transfer { len: want }),
        ReadStep::Done(finished) => settled(pre, source(is_stdout), finished),
    }
}

/// Whether taking the outcome of a read turns `pre` into `post`, with `step` to
/// do next.
pub open spec fn takes_read<D, F: FnMut(&[u8]) -> bool>(
    pre: Draining<D, F>,
    post: Draining<D, F>,
    is_stdout: bool,
    outcome: Result<Option<usize>, SysError>,
    chunk: Seq<u8>,
    step: DrainStep<D>,
) -> bool {
    &&& post.early_exit is Some <==> pre.early_exit is Some
    &&& !buffer::asks(pre.captured, is_stdout, outcome, pre.early_exit) ==> post.early_exit
        == pre.early_exit
    &&& exists|read: ReadStep| #[trigger]
        buffer::reads(
            pre.captured,
            post.captured,
            is_stdout,
            outcome,
            chunk,
            pre.early_exit,
            read,
        ) && (post, step) == read_settled(
            Draining { captured: post.captured, early_exit: post.early_exit, ..pre },
            is_stdout,
            read,
        )
}

impl<D, F> DrainState<D, F> where F: FnMut(&[u8]) -> bool {
    /// The I/O of a process on the given pipes. The pipe to stdin is kept only
    /// where there is something to write.
    pub fn new(
        _job_id: u64,
        stdin_fd: Option<D>,
        stdin_buf: Option<Box<[u8]>>,
        stdout_fd: Option<D>,
        stderr_fd: Option<D>,
        limit: usize,
        early_exit: Option<F>,
    ) -> (r: Self)
        ensures
            r@ == (Draining::<D, F> {
                stdin: if stdin_buf is Some {
                    fresh_slot(stdin_fd)
                } else {
                    None
                },
                stdout: fresh_slot(stdout_fd),
                stderr: fresh_slot(stderr_fd),
                captured: buffer::Captured {
                    stdout: Seq::<u8>::empty(),
                    stderr: Seq::<u8>::empty(),
                    limit: limit as nat,
                },
                unwritten: match stdin_buf {
                    Some(b) => Some(b@),
                    None => None,
                },
                early_exit,
            }),
    {
        let stdin_slot = match stdin_fd {
            Some(fd) => {
                if stdin_buf.is_some() {
                    Some(FdSlot { token: None, fd })
                } else {
                    None
                }
            },
            None => None,
        };
        let stdout_slot = match stdout_fd {
            Some(fd) => Some(FdSlot { token: None, fd }),
            None => None,
        };
        let stderr_slot = match stderr_fd {
            Some(fd) => Some(FdSlot { token: None, fd }),
            None => None,
        };
        DrainState {
            stdin_slot,
            stdout_slot,
            stderr_slot,
            buffer: BufferState::new(limit),
            writer: WriterState::new(stdin_buf),
            early_exit,
        }
    }

    /// Whether all pipes have been closed or fully drained.
    pub fn is_done(&self) -> (r: bool)
        ensures
            r == self@.is_done(),
    {
        self.stdin_slot.is_none() && self.stdout_slot.is_none() && self.stderr_slot.is_none()
    }

    /// The descriptor of a stream's pipe.
    pub fn fd(&self, stream: Stream) -> (r: Option<&D>)
        ensures
            r == (match self@.slot(stream) {
                Some(slot) => Some(&slot.fd),
                None => None,
            }),
    {
        let slot = match stream {
            Stream::Stdin => &self.stdin_slot,
            Stream::Stdout => &self.stdout_slot,
            Stream::Stderr => &self.stderr_slot,
        };
        match slot {
            Some(slot) => Some(&slot.fd),
            None => None,
        }
    }

    /// Takes a stream's pipe out of its slot.
    pub fn take_slot(&mut self, stream: Stream) -> (r: Option<FdSlot<D>>)
        ensures
            r == old(self)@.slot(stream),
            final(self)@ == old(self)@.with_slot(stream, None),
    {
        match stream {
            Stream::Stdin => self.stdin_slot.take(),
            Stream::Stdout => self.stdout_slot.take(),
            Stream::Stderr => self.stderr_slot.take(),
        }
    }

    /// The first pipe that waits for a token.
    pub fn next_unregistered(&self) -> (r: Option<Stream>)
        ensures
            r == self@.next_unregistered(),
    {
        if let Some(slot) = &self.stdin_slot {
            if slot.token.is_none() {
                return Some(Stream::Stdin);
            }
        }
        if let Some(slot) = &self.stdout_slot {
            if slot.token.is_none() {
                return Some(Stream::Stdout);
            }
        }
        if let Some(slot) = &self.stderr_slot {
            if slot.token.is_none() {
                return Some(Stream::Stderr);
            }
        }
        None
    }

    /// Notes the token that stands for a stream's pipe.
    pub fn assign(&mut self, stream: Stream, token: Token)
        ensures
            final(self)@ == (match old(self)@.slot(stream) {
                Some(slot) => old(self)@.with_slot(
                    stream,
                    Some(FdSlot { token: Some(token), fd: slot.fd }),
                ),
                None => old(self)@,
            }),
    {
        match self.take_slot(stream) {
            Some(slot) => {
                let slot = Some(FdSlot { token: Some(token), fd: slot.fd });
                match stream {
                    Stream::Stdin => {
                        self.stdin_slot = slot;
                    },
                    Stream::Stdout => {
                        self.stdout_slot = slot;
                    },
                    Stream::Stderr => {
                        self.stderr_slot = slot;
                    },
                }
            },
            None => {},
        }
    }

    /// The pipe that an event calls for the handling of.
    pub fn target(&self, event: Event) -> (r: Option<Stream>)
        ensures
            r == self@.target(event),
    {
        if let Some(slot) = &self.stdout_slot {
            if let Some(token) = slot.token {
                if token == event.token && (event.error || event.readable) {
                    return Some(Stream::Stdout);
                }
            }
        }
        if let Some(slot) = &self.stderr_slot {
            if let Some(token) = slot.token {
                if token == event.token && (event.error || event.readable) {
                    return Some(Stream::Stderr);
                }
            }
        }
        if let Some(slot) = &self.stdin_slot {
            if let Some(token) = slot.token {
                if token == event.token && (event.error || event.writable) {
                    return Some(Stream::Stdin);
                }
            }
        }
        None
    }

    /// Starts to write to stdin, where anything is pending.
    pub fn start_write(&mut self) -> (r: DrainStep<D>)
        ensures
            (final(self)@, r) == write_started(old(self)@),
    {
        if self.stdin_slot.is_none() {
            return DrainStep::Done(Ok(None));
        }
        let write = self.writer.next_write();
        match write {
            WriteStep::Write { len } => DrainStep::Transfer { len },
            WriteStep::Done(Ok(true)) => DrainStep::Done(Ok(self.stdin_slot.take())),
            WriteStep::Done(Ok(false)) => DrainStep::Done(Ok(None)),
            WriteStep::Done(Err(e)) => DrainStep::Done(Err(e)),
        }
    }

    /// Takes the outcome of a write to stdin.
    pub fn write_stdin(&mut self, outcome: Result<Option<usize>, SysError>) -> (r: DrainStep<D>)
        requires
            old(self)@.unwritten matches Some(left) && left.len() > 0,
        ensures
            (final(self)@, r) == write_taken(old(self)@, outcome),
    {
        let write = self.writer.write_to_fd(outcome);
        match write {
            WriteStep::Write { len } => DrainStep::Transfer { len },
            WriteStep::Done(Ok(true)) => DrainStep::Done(Ok(self.stdin_slot.take())),
            WriteStep::Done(Ok(false)) => DrainStep::Done(Ok(None)),
            WriteStep::Done(Err(e)) => DrainStep::Done(Err(e)),
        }
    }

    /// Starts to read from stdout or stderr, where its pipe is there.
    pub fn start_read(&self, is_stdout: bool) -> (r: DrainStep<D>)
        ensures
            self@.slot(source(is_stdout)) is None ==> r == DrainStep::<D>::Done(Ok(None)),
            self@.slot(source(is_stdout)) is Some ==> (r matches DrainStep::Transfer { len }
                && len == self@.captured.want()),
    {
        let absent: bool = if is_stdout {
            self.stdout_slot.is_none()
        } else {
            self.stderr_slot.is_none()
        };
        if absent {
            DrainStep::Done(Ok(None))
        } else {
            DrainStep::Transfer { len: self.buffer.next_read() }
        }
    }

    /// Takes the outcome of a read of stdout or stderr into `chunk`.
    pub fn read_fd(
        &mut self,
        is_stdout: bool,
        outcome: Result<Option<usize>, SysError>,
        chunk: &[u8],
    ) -> (r: DrainStep<D>)
        requires
            outcome matches Ok(Some(n)) ==> n <= chunk@.len() && n
                <= old(self)@.captured.want(),
            buffer::askable(old(self)@.early_exit),
        ensures
            takes_read(old(self)@, final(self)@, is_stdout, outcome, chunk@, r),
    {
        let read = self.buffer.read_from_fd(is_stdout, outcome, chunk, &mut self.early_exit);
        let ghost taken = read;
        let step = match read {
            ReadStep::Read { want } => DrainStep::Transfer { len: want },
            ReadStep::Done(Ok(true)) => DrainStep::Done(
                Ok(
                    if is_stdout {
                        self.stdout_slot.take()
                    } else {
                        self.stderr_slot.take()
                    },
                ),
            ),
            ReadStep::Done(Ok(false)) => DrainStep::Done(Ok(None)),
            ReadStep::Done(Err(e)) => DrainStep::Done(Err(e)),
        };
        assert((self@, step) == read_settled(
            Draining { captured: self@.captured, early_exit: self@.early_exit, ..old(self)@ },
            is_stdout,
            taken,
        ));
        step
    }

    /// Takes all pipes that are left.
    pub fn take_all_slots(&mut self) -> (r: Vec<FdSlot<D>>)
        ensures
            r@ == old(self)@.slots(),
            final(self)@ == (Draining::<D, F> {
                stdin: None,
                stdout: None,
                stderr: None,
                ..old(self)@
            }),
    {
        let mut slots: Vec<FdSlot<D>> = Vec::new();
        if let Some(slot) = self.stdin_slot.take() {
            slots.push(slot);
        }
        if let Some(slot) = self.stdout_slot.take() {
            slots.push(slot);
        }
        if let Some(slot) = self.stderr_slot.take() {
            slots.push(slot);
        }
        slots
    }

    /// What was captured: stdout, then stderr.
    pub fn into_parts(self) -> (r: (Vec<u8>, Vec<u8>))
        ensures
            r.0@ == self@.captured.stdout,
            r.1@ == self@.captured.stderr,
            0 <= self@.captured.room(),
    {
        self.buffer.into_parts()
    }
}

/// The descriptor that `step` hands over, where it does.
pub open spec fn handed_over<D>(step: DrainStep<D>) -> Option<FdSlot<D>> {
    match step {
        DrainStep::Done(Ok(slot)) => slot,
        _ => None,
    }
}

/// Reading never loses a descriptor nor hands one over twice: each pipe either
/// stays in its slot, or leaves it and is the one that is handed over.
pub proof fn law_reading_keeps_descriptors<D, F: FnMut(&[u8]) -> bool>(
    pre: Draining<D, F>,
    post: Draining<D, F>,
    is_stdout: bool,
    outcome: Result<Option<usize>, SysError>,
    chunk: Seq<u8>,
    step: DrainStep<D>,
    stream: Stream,
)
    requires
        takes_read(pre, post, is_stdout, outcome, chunk, step),
    ensures
        post.slot(stream) == pre.slot(stream) || (post.slot(stream) is None && handed_over(step)
            == pre.slot(stream)),
        handed_over(step) is Some ==> post.slot(source(is_stdout)) is None,
{
}

/// Writing never loses a descriptor nor hands one over twice.
pub proof fn law_writing_keeps_descriptors<D, F: FnMut(&[u8]) -> bool>(
    pre: Draining<D, F>,
    post: Draining<D, F>,
    outcome: Result<Option<usize>, SysError>,
    step: DrainStep<D>,
    stream: Stream,
)
    requires
        (post, step) == write_taken(pre, outcome),
    ensures
        post.slot(stream) == pre.slot(stream) || (post.slot(stream) is None && handed_over(step)
            == pre.slot(stream)),
        handed_over(step) is Some ==> post.stdin is None,
{
}

/// The slots of the streams are kept apart: what is put into one is in that one,
/// and nothing else changes.
pub proof fn law_slots_are_kept_apart<D, F>(
    d: Draining<D, F>,
    stream: Stream,
    other: Stream,
    slot: Option<FdSlot<D>>,
)
    ensures
        d.slot(Stream::Stdin) == d.stdin,
        d.slot(Stream::Stdout) == d.stdout,
        d.slot(Stream::Stderr) == d.stderr,
        d.with_slot(stream, slot).slot(stream) == slot,
        other != stream ==> d.with_slot(stream, slot).slot(other) == d.slot(other),
        d.with_slot(stream, slot).captured == d.captured,
        d.with_slot(stream, slot).unwritten == d.unwritten,
        d.with_slot(stream, slot).early_exit == d.early_exit,
        source(true) == Stream::Stdout,
        source(false) == Stream::Stderr,
{
}

/// A pipe that is new has no token, and one that is not there has no slot.
pub proof fn law_new_pipes_have_no_token<D>(fd: D)
    ensures
        fresh_slot(Some(fd)) matches Some(slot) && slot.fd == fd && slot.token is None,
        fresh_slot(None::<D>) is None,
{
}

/// All is drained exactly where no stream has a pipe left, and the pipes that are
/// left are those of the streams, each once, stdin's first and stderr's last.
pub proof fn law_slots_are_what_is_left<D, F>(d: Draining<D, F>, slot: FdSlot<D>)
    ensures
        d.is_done() <==> d.stdin is None && d.stdout is None && d.stderr is None,
        d.is_done() <==> d.slots().len() == 0,
        d.slots().contains(slot) <==> d.stdin == Some(slot) || d.stdout == Some(slot) || d.stderr
            == Some(slot),
        d.slots().len() == (if d.stdin is Some {
            1int
        } else {
            0
        }) + (if d.stdout is Some {
            1int
        } else {
            0
        }) + (if d.stderr is Some {
            1int
        } else {
            0
        }),
        d.stdin is Some ==> d.slots()[0] == d.stdin->0,
        d.stderr is Some ==> d.slots()[d.slots().len() - 1] == d.stderr->0,
{
    let all = d.slots();
    if d.stdin == Some(slot) {
        assert(all[0] == slot);
    }
    if d.stdout == Some(slot) {
        assert(all[if d.stdin is Some {
            1
        } else {
            0
        }] == slot);
    }
    if d.stderr == Some(slot) {
        assert(all[all.len() - 1] == slot);
    }
}

/// The pipe that is registered next has no token yet, and those before it have
/// one or are not there; where none is next, every pipe has its token.
pub proof fn law_every_pipe_gets_its_token<D, F>(d: Draining<D, F>)
    ensures
        d.next_unregistered() matches Some(stream) ==> (d.slot(stream) matches Some(slot)
            && slot.token is None),
        d.next_unregistered() is None ==> (d.stdin matches Some(slot) ==> slot.token is Some) && (
        d.stdout matches Some(slot) ==> slot.token is Some) && (d.stderr matches Some(slot)
            ==> slot.token is Some),
        (d.stdin matches Some(slot) && slot.token is None) ==> d.next_unregistered() == Some(
            Stream::Stdin,
        ),
        d.next_unregistered() == Some(Stream::Stderr) ==> (d.stdout matches Some(slot)
            ==> slot.token is Some),
{
}

/// An event finds the pipe whose token it carries, where the pipe is in trouble
/// or ready for what is done with it: reading from stdout and stderr, writing to
/// stdin. An event that finds no pipe is about none that is ready.
pub proof fn law_events_find_their_pipe<D, F>(d: Draining<D, F>, event: Event)
    ensures
        d.target(event) matches Some(stream) ==> (d.slot(stream) matches Some(slot) && slot.token
            == Some(event.token)),
        d.target(event) == Some(Stream::Stdin) ==> event.error || event.writable,
        d.target(event) == Some(Stream::Stdout) || d.target(event) == Some(Stream::Stderr)
            ==> event.error || event.readable,
        (d.stdout matches Some(slot) && slot.token == Some(event.token)) && (event.error
            || event.readable) ==> d.target(event) == Some(Stream::Stdout),
        (d.stderr matches Some(slot) && slot.token == Some(event.token)) && (event.error
            || event.readable) && !(d.stdout matches Some(slot) && slot.token == Some(event.token))
            ==> d.target(event) == Some(Stream::Stderr),
        (d.stdin matches Some(slot) && slot.token == Some(event.token)) && (event.error
            || event.writable) && !(d.stdout matches Some(slot) && slot.token == Some(event.token))
            && !(d.stderr matches Some(slot) && slot.token == Some(event.token)) ==> d.target(
            event,
        ) == Some(Stream::Stdin),
{
}

/// What comes of a write to stdin's pipe: the pipe is handed over once all is
/// written or it is closed, and stays otherwise; the output is not touched.
pub proof fn law_what_comes_of_writing_stdin<D, F>(
    pre: Draining<D, F>,
    outcome: Result<Option<usize>, SysError>,
)
    requires
        pre.unwritten matches Some(left) && left.len() > 0,
    ensures
        ({
            let left = pre.unwritten->0;
            let (post, step) = write_taken(pre, outcome);
            &&& post.stdout == pre.stdout && post.stderr == pre.stderr && post.captured
                == pre.captured && post.early_exit == pre.early_exit
            &&& match outcome {
                Ok(Some(n)) => if 0 < n < left.len() {
                    &&& post.unwritten == Some(left.subrange(n as int, left.len() as int))
                    &&& post.stdin == pre.stdin
                    &&& step matches DrainStep::Transfer { len } && len == if left.len() - n
                        < 65536 {
                        left.len() - n
                    } else {
                        65536
                    }
                } else {
                    &&& post.unwritten is None && post.stdin is None
                    &&& step == DrainStep::<D>::Done(Ok(pre.stdin))
                },
                Ok(None) => post == pre && step == DrainStep::<D>::Done(Ok(None)),
                Err(e) => if e->code == crate::spawn::error::EPIPE {
                    &&& post.unwritten is None && post.stdin is None
                    &&& step == DrainStep::<D>::Done(Ok(pre.stdin))
                } else {
                    &&& post.unwritten is None && post.stdin == pre.stdin
                    &&& step == DrainStep::<D>::Done(Err(e))
                },
            }
        }),
{
    writer::law_what_comes_of_a_write(pre.unwritten->0, outcome);
}

/// How writing to stdin's pipe starts: with what is left, where there is a pipe
/// and something left; a pipe without anything left is handed over.
pub proof fn law_how_writing_stdin_starts<D, F>(pre: Draining<D, F>)
    ensures
        ({
            let (post, step) = write_started(pre);
            &&& post.stdout == pre.stdout && post.stderr == pre.stderr && post.captured
                == pre.captured && post.early_exit == pre.early_exit
            &&& pre.stdin is None ==> post == pre && step == DrainStep::<D>::Done(Ok(None))
            &&& pre.stdin is Some && pre.unwritten is Some && pre.unwritten->0.len() > 0 ==> post
                == pre && (step matches DrainStep::Transfer { len } && 0 < len
                <= pre.unwritten->0.len() && (len < pre.unwritten->0.len() ==> len == 65536))
            &&& pre.stdin is Some && (pre.unwritten is None || pre.unwritten->0.len() == 0)
                ==> post.stdin is None && post.unwritten is None && step == DrainStep::<D>::Done(
                Ok(pre.stdin),
            )
        }),
{
}

/// What comes of a read of an output pipe: the pipe is handed over at its end, or
/// where the closure has had enough, and stays otherwise; the other pipes and what
/// is to be written are not touched.
pub proof fn law_what_comes_of_reading_output<D, F: FnMut(&[u8]) -> bool>(
    pre: Draining<D, F>,
    post: Draining<D, F>,
    is_stdout: bool,
    outcome: Result<Option<usize>, SysError>,
    chunk: Seq<u8>,
    step: DrainStep<D>,
)
    requires
        takes_read(pre, post, is_stdout, outcome, chunk, step),
        pre.captured.stdout.len() + pre.captured.stderr.len() <= pre.captured.limit,
    ensures
        post.stdin == pre.stdin,
        post.unwritten == pre.unwritten,
        is_stdout ==> post.stderr == pre.stderr,
        !is_stdout ==> post.stdout == pre.stdout,
        step matches DrainStep::Transfer { len } ==> len == post.captured.want(),
        match outcome {
            Ok(Some(n)) => {
                &&& n == 0 && is_stdout ==> post.stdout is None && step == DrainStep::<D>::Done(
                    Ok(pre.stdout),
                )
                &&& n == 0 && !is_stdout ==> post.stderr is None && step == DrainStep::<D>::Done(
                    Ok(pre.stderr),
                )
                &&& n == 0 ==> post.captured == pre.captured
                &&& n > 0 && (!is_stdout || pre.early_exit is None) ==> step is Transfer
                    && post.stdout == pre.stdout && post.stderr == pre.stderr
                &&& n > 0 && pre.captured.stdout.len() + pre.captured.stderr.len()
                    < pre.captured.limit ==> (is_stdout ==> post.captured.stdout
                    == pre.captured.stdout + chunk.take(n as int) && post.captured.stderr
                    == pre.captured.stderr) && (!is_stdout ==> post.captured.stderr
                    == pre.captured.stderr + chunk.take(n as int) && post.captured.stdout
                    == pre.captured.stdout)
            },
            Ok(None) => post == pre && step == DrainStep::<D>::Done(Ok(None)),
            Err(e) => post == pre && step == DrainStep::<D>::Done(Err(e)),
        },
{
}

} // verus!
