//! Transmission of a buffer to a process.

use vstd::prelude::*;
use crate::spawn::error::{SysError, EPIPE};

verus! {

/// The most that is written at a time.
pub const WRITE_CHUNK: usize = 65536;

/// What to do next with a pipe that is being written.
#[derive(Debug)]
pub enum WriteStep {
    /// Write the first `len` bytes of what is left.
    Write {
        len: usize,
    },
    /// Writing is over: `Ok(true)` where nothing is left to write or the pipe
    /// is closed, `Ok(false)` where the next write would block.
    Done(Result<bool, SysError>),
}

/// Manages the transmission of a fixed buffer to a pipe.
///
/// Its view is what is left to write, or `None` once the buffer is gone.
#[derive(Debug)]
pub struct WriterState {
    buf: Option<Box<[u8]>>,
    off: usize,
}

impl View for WriterState {
    type V = Option<Seq<u8>>;

    closed spec fn view(&self) -> Option<Seq<u8>> {
        match self.buf {
            Some(buf) => Some(buf@.skip(self.off as int)),
            None => None,
        }
    }
}

/// How much of `left` to write next.
pub open spec fn chunk_len(left: Seq<u8>) -> int {
    if left.len() < WRITE_CHUNK {
        left.len() as int
    } else {
        WRITE_CHUNK as int
    }
}

/// What to do with `pre` left to write, and what is then left.
///
/// A buffer of which nothing is left is gone, and writing is over.
pub open spec fn proceed(pre: Option<Seq<u8>>) -> (Option<Seq<u8>>, WriteStep) {
    match pre {
        Some(left) if left.len() > 0 => (pre, WriteStep::Write { len: chunk_len(left) as usize }),
        _ => (None, WriteStep::Done(Ok(true))),
    }
}

/// What is left once the outcome of a write with `left` to write is taken, and
/// what to do next.
///
/// A closed pipe ends the writing as if all had been written; any other failure
/// ends it too, and is reported. In both cases the buffer is gone.
pub open spec fn written(left: Seq<u8>, outcome: Result<Option<usize>, SysError>) -> (
    Option<Seq<u8>>,
    WriteStep,
) {
    match outcome {
        Ok(Some(n)) if 0 < n < left.len() => proceed(Some(left.skip(n as int))),
        Ok(Some(_)) => (None, WriteStep::Done(Ok(true))),
        Ok(None) => (Some(left), WriteStep::Done(Ok(false))),
        Err(e) => (
            None,
            WriteStep::Done(
                if e@.0 == EPIPE {
                    Ok(true)
                } else {
                    Err(e)
                },
            ),
        ),
    }
}

impl WriterState {
    #[verifier::type_invariant]
    spec fn inv(self) -> bool {
        self.buf matches Some(buf) ==> self.off <= buf@.len()
    }

    /// The transmission of `buf`, of which nothing is written yet.
    pub fn new(buf: Option<Box<[u8]>>) -> (r: Self)
        ensures
            r@ == (match buf {
                Some(b) => Some(b@),
                None => None,
            }),
    {
        proof {
            if buf is Some {
                assert(buf->0@.skip(0) =~= buf->0@);
            }
        }
        WriterState { buf, off: 0 }
    }

    /// Whether the buffer is gone.
    pub fn is_finished(&self) -> (r: bool)
        ensures
            r == (self@ is None),
    {
        self.buf.is_none()
    }

    /// Gives up what is left to write.
    pub fn abandon(&mut self)
        ensures
            final(self)@ is None,
    {
        self.buf = None;
    }

    /// The bytes to write next.
    pub fn chunk(&self) -> (r: &[u8])
        ensures
            r@ == (match self@ {
                Some(left) => left.take(chunk_len(left)),
                None => Seq::<u8>::empty(),
            }),
    {
        proof {
            use_type_invariant(&*self);
        }
        match &self.buf {
            Some(buf) => {
                let left: usize = buf.len() - self.off;
                let len: usize = if left < WRITE_CHUNK {
                    left
                } else {
                    WRITE_CHUNK
                };
                let whole: &[u8] = &**buf;
                let r: &[u8] = &whole[self.off..self.off + len];
                assert(r@ =~= buf@.skip(self.off as int).take(len as int));
                r
            },
            None => {
                let r: &[u8] = &[];
                assert(r@ =~= Seq::<u8>::empty());
                r
            },
        }
    }

    /// What to do next.
    pub fn next_write(&mut self) -> (r: WriteStep)
        ensures
            (final(self)@, r) == proceed(old(self)@),
    {
        proof {
            use_type_invariant(&*self);
        }
        let left: usize = match &self.buf {
            Some(buf) => buf.len() - self.off,
            None => 0,
        };
        if left == 0 {
            self.buf = None;
            return WriteStep::Done(Ok(true));
        }
        if left < WRITE_CHUNK {
            WriteStep::Write { len: left }
        } else {
            WriteStep::Write { len: WRITE_CHUNK }
        }
    }

    /// Takes the outcome of writing the next bytes: how many were written, or
    /// `None` where the call would block.
    pub fn write_to_fd(&mut self, outcome: Result<Option<usize>, SysError>) -> (r: WriteStep)
        requires
            old(self)@ matches Some(left) && left.len() > 0,
        ensures
            (final(self)@, r) == written(old(self)@->0, outcome),
    {
        proof {
            use_type_invariant(&*self);
        }
        let left: usize = match &self.buf {
            Some(buf) => buf.len() - self.off,
            None => 0,
        };
        match outcome {
            Ok(Some(n)) => {
                if n > 0 && n < left {
                    assert(old(self)@->0.skip(n as int) =~= self.buf->0@.skip(self.off + n));
                    self.off = self.off + n;
                    self.next_write()
                } else {
                    self.buf = None;
                    WriteStep::Done(Ok(true))
                }
            },
            Ok(None) => WriteStep::Done(Ok(false)),
            Err(e) => {
                self.buf = None;
                let SysError::Syscall { code, .. } = &e;
                if *code == EPIPE {
                    WriteStep::Done(Ok(true))
                } else {
                    WriteStep::Done(Err(e))
                }
            },
        }
    }
}

/// What is left of `buf` once the pipe has taken the given numbers of bytes,
/// one after the other.
pub open spec fn left_after(buf: Seq<u8>, counts: Seq<nat>) -> Seq<u8>
    decreases counts.len(),
{
    if counts.len() == 0 {
        buf
    } else {
        left_after(buf, counts.drop_last()).skip(counts.last() as int)
    }
}

/// What the pipe has taken of `buf` by then.
pub open spec fn taken_after(buf: Seq<u8>, counts: Seq<nat>) -> Seq<u8>
    decreases counts.len(),
{
    if counts.len() == 0 {
        Seq::empty()
    } else {
        taken_after(buf, counts.drop_last()) + left_after(buf, counts.drop_last()).take(
            counts.last() as int,
        )
    }
}

/// The pipe receives the buffer in order, without a gap and without a byte
/// twice: what it has taken and what is left make up the buffer, however the
/// writes were split.
pub proof fn law_written_in_order(buf: Seq<u8>, counts: Seq<nat>)
    requires
        forall|k: int|
            0 <= k < counts.len() ==> #[trigger] counts[k] <= chunk_len(
                left_after(buf, counts.take(k)),
            ),
    ensures
        taken_after(buf, counts) + left_after(buf, counts) == buf,
    decreases counts.len(),
{
    if counts.len() == 0 {
        assert(taken_after(buf, counts) + left_after(buf, counts) =~= buf);
    } else {
        let before = counts.drop_last();
        assert forall|k: int| 0 <= k < before.len() implies #[trigger] before[k] <= chunk_len(
            left_after(buf, before.take(k)),
        ) by {
            assert(before.take(k) =~= counts.take(k));
            assert(counts[k] == before[k]);
        }
        law_written_in_order(buf, before);
        assert(before =~= counts.take(counts.len() - 1));
        assert(counts[counts.len() - 1] <= chunk_len(left_after(buf, before)));
        let left = left_after(buf, before);
        assert(left.take(counts.last() as int) + left.skip(counts.last() as int) =~= left);
        assert(taken_after(buf, counts) + left_after(buf, counts) =~= taken_after(buf, before)
            + left);
    }
}

/// All that is left is offered to the pipe, 64 KiB at most at a time.
pub proof fn law_writes_offer_what_is_left(left: Seq<u8>)
    ensures
        left.len() <= 65536 ==> chunk_len(left) == left.len(),
        left.len() > 65536 ==> chunk_len(left) == 65536,
{
}

/// What comes of a write. Bytes that were taken are not offered again, and all
/// others are; writing ends where nothing is left, where the pipe takes nothing
/// or is closed, and where it fails, and only then is the buffer gone. Only a
/// failure other than a closed pipe is reported.
pub proof fn law_what_comes_of_a_write(left: Seq<u8>, outcome: Result<Option<usize>, SysError>)
    requires
        left.len() > 0,
    ensures
        match outcome {
            Ok(Some(n)) => {
                &&& 0 < n < left.len() ==> written(left, outcome).0 == Some(
                    left.subrange(n as int, left.len() as int),
                ) && (written(left, outcome).1 matches WriteStep::Write { len } && len == if left.len()
                    - n < 65536 {
                    left.len() - n
                } else {
                    65536
                })
                &&& n == 0 || n >= left.len() ==> written(left, outcome) == (
                    None::<Seq<u8>>,
                    WriteStep::Done(Ok(true)),
                )
            },
            Ok(None) => written(left, outcome) == (Some(left), WriteStep::Done(Ok(false))),
            Err(e) => written(left, outcome) == (
                None::<Seq<u8>>,
                WriteStep::Done(
                    if e->code == EPIPE {
                        Ok(true)
                    } else {
                        Err(e)
                    },
                ),
            ),
        },
{
    if let Ok(Some(n)) = outcome {
        if 0 < n < left.len() {
            assert(left.skip(n as int) =~= left.subrange(n as int, left.len() as int));
        }
    }
}

/// Writing starts with the first bytes where there are any, and is over at once
/// where there are none.
pub proof fn law_writing_starts_where_there_is_something(buf: Option<Seq<u8>>)
    ensures
        buf is None || buf->0.len() == 0 ==> proceed(buf) == (
            None::<Seq<u8>>,
            WriteStep::Done(Ok(true)),
        ),
        buf is Some && buf->0.len() > 0 ==> proceed(buf).0 == buf && (proceed(buf).1
            matches WriteStep::Write { len } && 0 < len <= buf->0.len() && (len < buf->0.len()
            ==> len == 65536)),
{
}

} // verus!
