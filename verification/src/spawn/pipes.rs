//! The pipes between a process and its parent.

use vstd::prelude::*;
use crate::io::drain;
use crate::io::drain::{DrainState, Draining, Stream};
use crate::io::buffer;
use crate::reactor::fd::Fd;
use crate::spawn::error;
use crate::spawn::error::{Reply, SysError};

verus! {

/// The ends of the pipes to a process's standard streams. Of each pipe one end
/// is the parent's and the other the child's.
#[derive(Debug)]
pub struct Pipes<D> {
    pub stdin_r: Option<D>,
    pub stdin_w: Option<D>,
    pub stdout_r: Option<D>,
    pub stdout_w: Option<D>,
    pub stderr_r: Option<D>,
    pub stderr_w: Option<D>,
}

/// What making a pipe came to, given the reply and the two numbers that came
/// with it: the end to read from and the end to write to.
pub fn make_pipe(reply: Reply, fds: [i32; 2]) -> (r: Result<(Fd, Fd), SysError>)
    ensures
        reply.ret == -1 || fds[0] < 0 || fds[1] < 0 ==> error::failed_with(
            r,
            reply.code,
            "pipe2"@,
        ),
        reply.ret != -1 && fds[0] >= 0 && fds[1] >= 0 ==> (r matches Ok(ends) && ends.0.number()
            == fds[0] && ends.1.number() == fds[1]),
{
    if reply.ret == -1 {
        return Err(SysError::sys(reply.code, "pipe2"));
    }
    let reader = match Fd::checked(fds[0], reply.code, "pipe2") {
        Ok(fd) => fd,
        Err(e) => return Err(e),
    };
    let writer = match Fd::checked(fds[1], reply.code, "pipe2") {
        Ok(fd) => fd,
        Err(e) => return Err(e),
    };
    Ok((reader, writer))
}

impl<D> Pipes<D> {
    /// The pipe of a stream: its end to read from, its end to write to.
    pub open spec fn pipe(self, stream: Stream) -> (Option<D>, Option<D>) {
        match stream {
            Stream::Stdin => (self.stdin_r, self.stdin_w),
            Stream::Stdout => (self.stdout_r, self.stdout_w),
            Stream::Stderr => (self.stderr_r, self.stderr_w),
        }
    }

    /// With the pipe of a stream replaced.
    pub open spec fn with_pipe(self, stream: Stream, pipe: (Option<D>, Option<D>)) -> Self {
        match stream {
            Stream::Stdin => Pipes { stdin_r: pipe.0, stdin_w: pipe.1, ..self },
            Stream::Stdout => Pipes { stdout_r: pipe.0, stdout_w: pipe.1, ..self },
            Stream::Stderr => Pipes { stderr_r: pipe.0, stderr_w: pipe.1, ..self },
        }
    }

    /// No pipe at all.
    pub open spec fn nothing() -> Self {
        Pipes {
            stdin_r: None,
            stdin_w: None,
            stdout_r: None,
            stdout_w: None,
            stderr_r: None,
            stderr_w: None,
        }
    }

    /// Whether the stream has no pipe yet.
    pub open spec fn lacks(self, stream: Stream) -> bool {
        self.pipe(stream).0 is None && self.pipe(stream).1 is None
    }

    /// The next pipe to make: stdin, stdout, stderr, as far as each is wanted.
    pub open spec fn missing(self, stdin: bool, stdout: bool, stderr: bool) -> Option<Stream> {
        if stdin && self.lacks(Stream::Stdin) {
            Some(Stream::Stdin)
        } else if stdout && self.lacks(Stream::Stdout) {
            Some(Stream::Stdout)
        } else if stderr && self.lacks(Stream::Stderr) {
            Some(Stream::Stderr)
        } else {
            None
        }
    }

    /// No pipe yet.
    pub fn new() -> (r: Self)
        ensures
            r == Self::nothing(),
    {
        Pipes {
            stdin_r: None,
            stdin_w: None,
            stdout_r: None,
            stdout_w: None,
            stderr_r: None,
            stderr_w: None,
        }
    }

    /// The next pipe to make, given which streams are to have one.
    pub fn next_wanted(&self, stdin: bool, stdout: bool, stderr: bool) -> (r: Option<Stream>)
        ensures
            r == self.missing(stdin, stdout, stderr),
    {
        if stdin && self.stdin_r.is_none() && self.stdin_w.is_none() {
            Some(Stream::Stdin)
        } else if stdout && self.stdout_r.is_none() && self.stdout_w.is_none() {
            Some(Stream::Stdout)
        } else if stderr && self.stderr_r.is_none() && self.stderr_w.is_none() {
            Some(Stream::Stderr)
        } else {
            None
        }
    }

    /// Gives a stream its pipe.
    pub fn install(&mut self, stream: Stream, reader: D, writer: D)
        ensures
            *final(self) == old(self).with_pipe(stream, (Some(reader), Some(writer))),
    {
        match stream {
            Stream::Stdin => {
                self.stdin_r = Some(reader);
                self.stdin_w = Some(writer);
            },
            Stream::Stdout => {
                self.stdout_r = Some(reader);
                self.stdout_w = Some(writer);
            },
            Stream::Stderr => {
                self.stderr_r = Some(reader);
                self.stderr_w = Some(writer);
            },
        }
    }

    /// Drops every end.
    pub fn close_all(&mut self)
        ensures
            *final(self) == Self::nothing(),
    {
        self.stdin_r = None;
        self.stdin_w = None;
        self.stdout_r = None;
        self.stdout_w = None;
        self.stderr_r = None;
        self.stderr_w = None;
    }

    /// The parent's side, once the child runs: the child's ends are dropped, and
    /// the parent's are drained.
    pub fn into_drain<F: FnMut(&[u8]) -> bool>(
        self,
        job_id: u64,
        stdin: Option<Box<[u8]>>,
        limit: usize,
        early_exit: Option<F>,
    ) -> (r: DrainState<D, F>)
        ensures
            r@ == (Draining::<D, F> {
                stdin: if stdin is Some {
                    drain::fresh_slot(self.stdin_w)
                } else {
                    None
                },
                stdout: drain::fresh_slot(self.stdout_r),
                stderr: drain::fresh_slot(self.stderr_r),
                captured: buffer::Captured {
                    stdout: Seq::<u8>::empty(),
                    stderr: Seq::<u8>::empty(),
                    limit: limit as nat,
                },
                unwritten: match stdin {
                    Some(b) => Some(b@),
                    None => None,
                },
                early_exit,
            }),
    {
        DrainState::new(
            job_id,
            self.stdin_w,
            stdin,
            self.stdout_r,
            self.stderr_r,
            limit,
            early_exit,
        )
    }
}

/// The pipes that have been made once each of `made` has been installed, in
/// that order.
pub open spec fn installed<D>(made: Seq<(Stream, D, D)>) -> Pipes<D>
    decreases made.len(),
{
    if made.len() == 0 {
        Pipes::nothing()
    } else {
        installed(made.drop_last()).with_pipe(
            made.last().0,
            (Some(made.last().1), Some(made.last().2)),
        )
    }
}

/// Making the next missing pipe until none is missing gives exactly the wanted
/// streams a pipe, each with both of its ends.
pub proof fn law_wanted_pipes_are_made<D>(
    made: Seq<(Stream, D, D)>,
    stdin: bool,
    stdout: bool,
    stderr: bool,
    stream: Stream,
)
    requires
        forall|k: int|
            0 <= k < made.len() ==> installed(made.take(k)).missing(stdin, stdout, stderr) == Some(
                (#[trigger] made[k]).0,
            ),
        installed(made).missing(stdin, stdout, stderr) is None,
    ensures
        ({
            let wanted = match stream {
                Stream::Stdin => stdin,
                Stream::Stdout => stdout,
                Stream::Stderr => stderr,
            };
            let pipe = installed(made).pipe(stream);
            &&& wanted ==> pipe.0 is Some && pipe.1 is Some
            &&& !wanted ==> pipe.0 is None && pipe.1 is None
        }),
{
    lemma_only_wanted(made, stdin, stdout, stderr);
}

/// Every stream has both ends of its pipe or neither, and none that is not
/// wanted has any.
proof fn lemma_only_wanted<D>(
    made: Seq<(Stream, D, D)>,
    stdin: bool,
    stdout: bool,
    stderr: bool,
)
    requires
        forall|k: int|
            0 <= k < made.len() ==> installed(made.take(k)).missing(stdin, stdout, stderr) == Some(
                (#[trigger] made[k]).0,
            ),
    ensures
        ({
            let p = installed(made);
            &&& p.stdin_r is Some <==> p.stdin_w is Some
            &&& p.stdout_r is Some <==> p.stdout_w is Some
            &&& p.stderr_r is Some <==> p.stderr_w is Some
            &&& p.stdin_r is Some ==> stdin
            &&& p.stdout_r is Some ==> stdout
            &&& p.stderr_r is Some ==> stderr
        }),
    decreases made.len(),
{
    if made.len() > 0 {
        let before = made.drop_last();
        assert forall|k: int| 0 <= k < before.len() implies installed(before.take(k)).missing(
            stdin,
            stdout,
            stderr,
        ) == Some((#[trigger] before[k]).0) by {
            assert(before.take(k) =~= made.take(k));
            assert(made[k] == before[k]);
        }
        lemma_only_wanted(before, stdin, stdout, stderr);
        assert(before =~= made.take(made.len() - 1));
        assert(made[made.len() - 1] == made.last());
    }
}

/// The pipes of the streams are kept apart: what is given to one stream is that
/// stream's, and the pipes of the others stay.
pub proof fn law_pipes_are_kept_apart<D>(
    p: Pipes<D>,
    stream: Stream,
    other: Stream,
    pipe: (Option<D>, Option<D>),
)
    ensures
        p.pipe(Stream::Stdin) == (p.stdin_r, p.stdin_w),
        p.pipe(Stream::Stdout) == (p.stdout_r, p.stdout_w),
        p.pipe(Stream::Stderr) == (p.stderr_r, p.stderr_w),
        p.with_pipe(stream, pipe).pipe(stream) == pipe,
        other != stream ==> p.with_pipe(stream, pipe).pipe(other) == p.pipe(other),
        Pipes::<D>::nothing().pipe(stream) == (None::<D>, None::<D>),
{
}

/// The next pipe to make is of a stream that is to have one and has none, stdin
/// before stdout and stdout before stderr; where none is to be made, every stream
/// that is to have one has it.
pub proof fn law_missing_pipes_are_made_in_order<D>(
    p: Pipes<D>,
    stdin: bool,
    stdout: bool,
    stderr: bool,
)
    ensures
        ({
            let next = p.missing(stdin, stdout, stderr);
            let no_stdin = stdin && p.stdin_r is None && p.stdin_w is None;
            let no_stdout = stdout && p.stdout_r is None && p.stdout_w is None;
            let no_stderr = stderr && p.stderr_r is None && p.stderr_w is None;
            &&& next == Some(Stream::Stdin) <==> no_stdin
            &&& next == Some(Stream::Stdout) <==> no_stdout && !no_stdin
            &&& next == Some(Stream::Stderr) <==> no_stderr && !no_stdin && !no_stdout
            &&& next is None <==> !no_stdin && !no_stdout && !no_stderr
        }),
{
}

/// A pipe is made exactly where the call succeeded and gave two descriptors, and
/// then its ends are these: the first to read from, the second to write to.
pub proof fn law_ends_are_as_given(
    reply: Reply,
    fds: [i32; 2],
    r: Result<(Fd, Fd), SysError>,
)
    requires
        call_ensures(make_pipe, (reply, fds), r),
    ensures
        r is Ok <==> reply.ret != -1 && fds[0] >= 0 && fds[1] >= 0,
        r matches Ok((reader, writer)) ==> reader.number() == fds[0] && writer.number() == fds[1],
        r matches Err(e) ==> e->code == reply.code,
{
}

} // verus!
