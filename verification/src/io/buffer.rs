//! Accumulation of what a process writes.

use vstd::prelude::*;
use crate::spawn::error::SysError;

verus! {

/// The most that is read at a time.
pub const READ_CHUNK: usize = 65536;
/// The most that is read at a time once there is no room left.
pub const DISCARD_CHUNK: usize = 8192;

/// What to do next with a stream that is being read.
#[derive(Debug)]
pub enum ReadStep {
    /// Read at most `want` bytes.
    Read {
        want: usize,
    },
    /// Reading is over: `Ok(true)` at the end of the stream, `Ok(false)` where
    /// the next read would block.
    Done(Result<bool, SysError>),
}

/// What has been captured so far.
#[verifier::ext_equal]
pub struct Captured {
    pub stdout: Seq<u8>,
    pub stderr: Seq<u8>,
    /// The most bytes that both may hold together.
    pub limit: nat,
}

impl Captured {
    /// How many more bytes are kept.
    pub open spec fn room(self) -> int {
        self.limit - self.stdout.len() - self.stderr.len()
    }

    /// How much to read next.
    pub open spec fn want(self) -> int {
        if self.room() <= 0 {
            DISCARD_CHUNK as int
        } else if self.room() < READ_CHUNK {
            self.room()
        } else {
            READ_CHUNK as int
        }
    }

    /// With `bytes` read from one of the streams. Without room they are
    /// dropped.
    pub open spec fn with(self, is_stdout: bool, bytes: Seq<u8>) -> Captured {
        if self.room() <= 0 {
            self
        } else if is_stdout {
            Captured { stdout: self.stdout + bytes, ..self }
        } else {
            Captured { stderr: self.stderr + bytes, ..self }
        }
    }

    /// One of the streams.
    pub open spec fn stream(self, is_stdout: bool) -> Seq<u8> {
        if is_stdout {
            self.stdout
        } else {
            self.stderr
        }
    }
}

/// Accumulates output from process streams.
///
/// It keeps what is read from stdout and stderr, up to a limit on both
/// together, so that a misbehaving process cannot exhaust memory.
#[derive(Debug)]
pub struct BufferState {
    stdout: Vec<u8>,
    stderr: Vec<u8>,
    limit: usize,
}

impl View for BufferState {
    type V = Captured;

    closed spec fn view(&self) -> Captured {
        Captured { stdout: self.stdout@, stderr: self.stderr@, limit: self.limit as nat }
    }
}

/// Whether `f` answers `answer` for a chunk of these bytes.
pub open spec fn answers<F: FnMut(&[u8]) -> bool>(f: F, bytes: Seq<u8>, answer: bool) -> bool {
    exists|chunk: &[u8]| chunk@ == bytes && #[trigger] call_ensures(f, (chunk,), answer)
}

/// Whether the closure, where there is one, can be asked about any chunk.
pub open spec fn askable<F: FnMut(&[u8]) -> bool>(early_exit: Option<F>) -> bool {
    early_exit matches Some(f) ==> forall|chunk: &[u8]| #[trigger] call_requires(f, (chunk,))
}

/// Whether `early_exit` is asked about what was just read.
pub open spec fn asks<F: FnMut(&[u8]) -> bool>(
    pre: Captured,
    is_stdout: bool,
    outcome: Result<Option<usize>, SysError>,
    early_exit: Option<F>,
) -> bool {
    is_stdout && pre.room() > 0 && early_exit is Some && (outcome matches Ok(Some(n)) && n > 0)
}

/// Whether taking `outcome` turns `pre` into `post`, with `step` to do next.
///
/// Bytes are captured; the end of the stream, a read that would block and a
/// failure end the reading and change nothing. The closure is asked about each
/// chunk of stdout that is kept, and its `true` ends the reading.
pub open spec fn reads<F: FnMut(&[u8]) -> bool>(
    pre: Captured,
    post: Captured,
    is_stdout: bool,
    outcome: Result<Option<usize>, SysError>,
    chunk: Seq<u8>,
    early_exit: Option<F>,
    step: ReadStep,
) -> bool {
    match outcome {
        Ok(Some(n)) if n > 0 => {
            let bytes = chunk.take(n as int);
            &&& post == pre.with(is_stdout, bytes)
            &&& match step {
                ReadStep::Read { want } => want == post.want() && (asks(
                    pre,
                    is_stdout,
                    outcome,
                    early_exit,
                ) ==> answers(early_exit->0, bytes, false)),
                ReadStep::Done(r) => r == Ok::<bool, SysError>(true) && asks(
                    pre,
                    is_stdout,
                    outcome,
                    early_exit,
                ) && answers(early_exit->0, bytes, true),
            }
        },
        Ok(Some(_)) => post == pre && step == ReadStep::Done(Ok(true)),
        Ok(None) => post == pre && step == ReadStep::Done(Ok(false)),
        Err(e) => post == pre && step == ReadStep::Done(Err(e)),
    }
}

impl BufferState {
    /// The buffers never hold more than the limit.
    #[verifier::type_invariant]
    spec fn inv(self) -> bool {
        self.stdout@.len() + self.stderr@.len() <= self.limit
    }

    /// Empty buffers with the given limit.
    pub fn new(limit: usize) -> (r: Self)
        ensures
            r@ == (Captured {
                stdout: Seq::<u8>::empty(),
                stderr: Seq::<u8>::empty(),
                limit: limit as nat,
            }),
    {
        BufferState { stdout: Vec::with_capacity(1024), stderr: Vec::with_capacity(1024), limit }
    }

    /// How much to read next.
    pub fn next_read(&self) -> (r: usize)
        ensures
            r == self@.want(),
            0 < r <= READ_CHUNK,
            0 <= self@.room(),
    {
        proof {
            use_type_invariant(&*self);
        }
        let room: usize = self.limit - self.stdout.len() - self.stderr.len();
        if room == 0 {
            DISCARD_CHUNK
        } else if room < READ_CHUNK {
            room
        } else {
            READ_CHUNK
        }
    }

    /// Takes the outcome of a read of a stream into `chunk`: the number of
    /// bytes read, or `None` where the call would block.
    pub fn read_from_fd<F: FnMut(&[u8]) -> bool>(
        &mut self,
        is_stdout: bool,
        outcome: Result<Option<usize>, SysError>,
        chunk: &[u8],
        early_exit: &mut Option<F>,
    ) -> (r: ReadStep)
        requires
            outcome matches Ok(Some(n)) ==> n <= chunk@.len() && n <= old(self)@.want(),
            askable(*old(early_exit)),
        ensures
            reads(
                old(self)@,
                final(self)@,
                is_stdout,
                outcome,
                chunk@,
                *old(early_exit),
                r,
            ),
            0 <= final(self)@.room(),
            *final(early_exit) is Some <==> *old(early_exit) is Some,
            !asks(old(self)@, is_stdout, outcome, *old(early_exit)) ==> *final(early_exit) == *old(
                early_exit,
            ),
    {
        proof {
            use_type_invariant(&*self);
        }
        let n: usize = match outcome {
            Ok(Some(n)) => n,
            Ok(None) => return ReadStep::Done(Ok(false)),
            Err(e) => return ReadStep::Done(Err(e)),
        };
        if n == 0 {
            return ReadStep::Done(Ok(true));
        }
        if self.limit - self.stdout.len() - self.stderr.len() == 0 {
            return ReadStep::Read { want: DISCARD_CHUNK };
        }
        let bytes: &[u8] = &chunk[0..n];
        assert(bytes@ =~= chunk@.take(n as int));
        if is_stdout {
            let mut dest: Vec<u8> = Vec::new();
            std::mem::swap(&mut dest, &mut self.stdout);
            dest.extend_from_slice(bytes);
            assert(dest@ =~= old(self)@.stdout + bytes@);
            self.stdout = dest;
        } else {
            let mut dest: Vec<u8> = Vec::new();
            std::mem::swap(&mut dest, &mut self.stderr);
            dest.extend_from_slice(bytes);
            assert(dest@ =~= old(self)@.stderr + bytes@);
            self.stderr = dest;
        }
        if is_stdout {
            if let Some(f) = early_exit {
                if f(bytes) {
                    return ReadStep::Done(Ok(true));
                }
            }
        }
        ReadStep::Read { want: self.next_read() }
    }

    /// The accumulated buffers: stdout, then stderr.
    pub fn into_parts(self) -> (r: (Vec<u8>, Vec<u8>))
        ensures
            r.0@ == self@.stdout,
            r.1@ == self@.stderr,
            0 <= self@.room(),
    {
        proof {
            use_type_invariant(&self);
        }
        (self.stdout, self.stderr)
    }
}

/// What is captured once the given chunks have been read, each from stdout
/// where its mark is `true` and from stderr otherwise.
pub open spec fn captured_after(start: Captured, chunks: Seq<(bool, Seq<u8>)>) -> Captured
    decreases chunks.len(),
{
    if chunks.len() == 0 {
        start
    } else {
        captured_after(start, chunks.drop_last()).with(chunks.last().0, chunks.last().1)
    }
}

/// All the bytes of the chunks of one of the streams.
pub open spec fn bytes_read(chunks: Seq<(bool, Seq<u8>)>, is_stdout: bool) -> Seq<u8>
    decreases chunks.len(),
{
    if chunks.len() == 0 {
        Seq::empty()
    } else if chunks.last().0 == is_stdout {
        bytes_read(chunks.drop_last(), is_stdout) + chunks.last().1
    } else {
        bytes_read(chunks.drop_last(), is_stdout)
    }
}

/// Whether no chunk is longer than what was asked for.
pub open spec fn within_wants(start: Captured, chunks: Seq<(bool, Seq<u8>)>) -> bool {
    forall|k: int|
        0 <= k < chunks.len() ==> (#[trigger] chunks[k]).1.len() <= captured_after(
            start,
            chunks.take(k),
        ).want()
}

/// What is captured of a stream is where that stream starts: no byte is lost
/// before the last one that is kept, and none is reordered or made up. And both
/// streams together stay within the limit.
pub proof fn law_capture_is_a_prefix(limit: nat, chunks: Seq<(bool, Seq<u8>)>, is_stdout: bool)
    requires
        within_wants(Captured { stdout: Seq::empty(), stderr: Seq::empty(), limit }, chunks),
    ensures
        ({
            let start = Captured { stdout: Seq::empty(), stderr: Seq::empty(), limit };
            let end = captured_after(start, chunks);
            &&& end.stream(is_stdout).is_prefix_of(bytes_read(chunks, is_stdout))
            &&& end.room() > 0 ==> end.stream(is_stdout) == bytes_read(chunks, is_stdout)
            &&& end.stdout.len() + end.stderr.len() <= limit
            &&& end.limit == limit
        }),
    decreases chunks.len(),
{
    let start = Captured { stdout: Seq::empty(), stderr: Seq::empty(), limit };
    if chunks.len() > 0 {
        let before = chunks.drop_last();
        assert(before =~= chunks.take(chunks.len() - 1));
        assert(within_wants(start, before)) by {
            assert forall|k: int| 0 <= k < before.len() implies (#[trigger] before[k]).1.len()
                <= captured_after(start, before.take(k)).want() by {
                assert(before.take(k) =~= chunks.take(k));
                assert(chunks[k] == before[k]);
            }
        }
        law_capture_is_a_prefix(limit, before, is_stdout);
        assert(chunks[chunks.len() - 1].1.len() <= captured_after(start, before).want());
        let had = captured_after(start, before).stream(is_stdout);
        let end = captured_after(start, chunks).stream(is_stdout);
        if end != had {
            assert(end =~= bytes_read(chunks, is_stdout));
        } else {
            assert(had.is_prefix_of(bytes_read(chunks, is_stdout)));
            if captured_after(start, before).room() > 0 && chunks.last().0 == is_stdout {
                assert(end =~= bytes_read(chunks, is_stdout));
            }
        }
    }
}

/// Once the limit is reached, nothing that is read changes what is captured.
pub proof fn law_full_buffers_stay(full: Captured, chunks: Seq<(bool, Seq<u8>)>)
    requires
        full.room() <= 0,
    ensures
        captured_after(full, chunks) == full,
    decreases chunks.len(),
{
    if chunks.len() > 0 {
        law_full_buffers_stay(full, chunks.drop_last());
    }
}

/// A read asks for as much as may still be kept, 64 KiB at most; once nothing may
/// be kept any more, for 8 KiB to drop.
pub proof fn law_reads_ask_for_what_fits(c: Captured)
    requires
        c.stdout.len() + c.stderr.len() <= c.limit,
    ensures
        ({
            let left = c.limit - c.stdout.len() - c.stderr.len();
            &&& left == 0 ==> c.want() == 8192
            &&& left > 0 ==> 1 <= c.want() <= 65536 && c.want() <= left
            &&& 0 < left <= 65536 ==> c.want() == left
            &&& left > 65536 ==> c.want() == 65536
        }),
{
}

/// As much is captured as the limit lets in: as long as both streams together are
/// below it, or all that was read is within it, each stream is captured whole.
pub proof fn law_all_that_fits_is_captured(limit: nat, chunks: Seq<(bool, Seq<u8>)>)
    requires
        within_wants(Captured { stdout: Seq::empty(), stderr: Seq::empty(), limit }, chunks),
    ensures
        ({
            let end = captured_after(
                Captured { stdout: Seq::empty(), stderr: Seq::empty(), limit },
                chunks,
            );
            let out = bytes_read(chunks, true);
            let err = bytes_read(chunks, false);
            &&& end.stdout.len() + end.stderr.len() < limit || out.len() + err.len() <= limit
                ==> end.stdout == out && end.stderr == err
            &&& end.stdout.len() + end.stderr.len() == if out.len() + err.len() <= limit {
                out.len() + err.len()
            } else {
                limit
            }
        }),
{
    law_capture_is_a_prefix(limit, chunks, true);
    law_capture_is_a_prefix(limit, chunks, false);
    let end = captured_after(
        Captured { stdout: Seq::empty(), stderr: Seq::empty(), limit },
        chunks,
    );
    let out = bytes_read(chunks, true);
    let err = bytes_read(chunks, false);
    if end.stdout.len() + end.stderr.len() >= limit && out.len() + err.len() <= limit {
        assert(end.stdout =~= out);
        assert(end.stderr =~= err);
    }
}

/// What comes of a read. Bytes go to the end of their own stream as long as the
/// limit is not reached, and reading goes on unless the closure has had enough of
/// a chunk of stdout; the end of the stream ends it, so does a read that would
/// block, and so does a failure, and these change nothing.
pub proof fn law_what_comes_of_a_read<F: FnMut(&[u8]) -> bool>(
    pre: Captured,
    post: Captured,
    is_stdout: bool,
    outcome: Result<Option<usize>, SysError>,
    chunk: Seq<u8>,
    early_exit: Option<F>,
    step: ReadStep,
)
    requires
        reads(pre, post, is_stdout, outcome, chunk, early_exit, step),
        pre.stdout.len() + pre.stderr.len() <= pre.limit,
    ensures
        post.limit == pre.limit,
        match outcome {
            Ok(Some(n)) => {
                let full = pre.stdout.len() + pre.stderr.len() == pre.limit;
                &&& n == 0 ==> post == pre && step == ReadStep::Done(Ok(true))
                &&& n > 0 && full ==> post == pre && step is Read
                &&& n > 0 && !full && is_stdout ==> post.stdout == pre.stdout + chunk.take(n as int)
                    && post.stderr == pre.stderr
                &&& n > 0 && !full && !is_stdout ==> post.stderr == pre.stderr + chunk.take(
                    n as int,
                ) && post.stdout == pre.stdout && step is Read
                &&& n > 0 && !full && is_stdout && early_exit is None ==> step is Read
                &&& n > 0 && !full && is_stdout && early_exit is Some ==> exists|
                    c: &[u8],
                    enough: bool,
                |
                    c@ == chunk.take(n as int) && #[trigger] call_ensures(
                        early_exit->0,
                        (c,),
                        enough,
                    ) && (enough <==> !(step is Read))
                &&& n > 0 && !(step is Read) ==> step == ReadStep::Done(Ok(true))
            },
            Ok(None) => post == pre && step == ReadStep::Done(Ok(false)),
            Err(e) => post == pre && step == ReadStep::Done(Err(e)),
        },
{
}

} // verus!
