use coreshift_lowlevel::io::buffer::{DISCARD_CHUNK, READ_CHUNK};
use coreshift_lowlevel::io::writer::WRITE_CHUNK;
use coreshift_lowlevel::io::{
    BufferState, DrainState, DrainStep, ReadStep, Stream, WriteStep, WriterState,
};
use coreshift_lowlevel::reactor::{Event, Fd, Token};
use coreshift_lowlevel::spawn::{Reply, Step, SysError};

type Never = fn(&[u8]) -> bool;

fn boxed(bytes: &[u8]) -> Option<Box<[u8]>> {
    Some(bytes.to_vec().into_boxed_slice())
}

#[test]
fn test_writer_state_epipe() {
    let w = Fd::new(4, "pipe").unwrap();
    let mut writer = WriterState::new(Some(vec![0u8; 1024 * 1024].into_boxed_slice()));

    // The read end is closed: every write fails with EPIPE.
    let mut last_res = Ok(false);
    let mut step = writer.next_write();
    for _ in 0..100 {
        match step {
            WriteStep::Write { .. } => {}
            WriteStep::Done(res) => {
                last_res = res;
                break;
            }
        }
        let outcome = match w.write(Reply { ret: -1, code: libc::EPIPE }) {
            Step::Done(outcome) => outcome,
            Step::Retry => panic!("EPIPE is not retried"),
        };
        step = writer.write_to_fd(outcome);
    }

    // EPIPE should be handled as "done" (Ok(true))
    assert!(last_res.is_ok());
    assert!(last_res.unwrap());
    assert!(writer.is_finished());
}

#[test]
fn a_buffer_is_written_in_order() {
    let data: Vec<u8> = (0..200_000u32).map(|i| i as u8).collect();
    let mut writer = WriterState::new(boxed(&data));
    let mut received = Vec::new();
    let mut step = writer.next_write();
    let mut turn = 0;
    loop {
        match step {
            WriteStep::Write { len } => {
                assert_eq!(writer.chunk().len(), len);
                assert!(len <= WRITE_CHUNK);
                turn += 1;
                let taken = if turn % 3 == 0 { len / 2 + 1 } else { len };
                received.extend_from_slice(&writer.chunk()[..taken]);
                step = writer.write_to_fd(Ok(Some(taken)));
            }
            WriteStep::Done(res) => {
                assert!(res.unwrap());
                break;
            }
        }
    }
    assert_eq!(received, data);
    assert!(writer.is_finished());
    assert!(writer.chunk().is_empty());
}

#[test]
fn writers_without_work_are_done() {
    let mut none = WriterState::new(None);
    assert!(none.is_finished());
    assert!(matches!(none.next_write(), WriteStep::Done(Ok(true))));
    let mut empty = WriterState::new(boxed(b""));
    assert!(!empty.is_finished());
    assert!(matches!(empty.next_write(), WriteStep::Done(Ok(true))));
    assert!(empty.is_finished());
}

#[test]
fn blocked_and_failed_writes() {
    let mut w = WriterState::new(boxed(b"abc"));
    assert!(matches!(w.next_write(), WriteStep::Write { len: 3 }));
    assert!(matches!(w.write_to_fd(Ok(None)), WriteStep::Done(Ok(false))));
    assert_eq!(w.chunk(), b"abc");
    assert!(matches!(w.write_to_fd(Ok(Some(1))), WriteStep::Write { len: 2 }));
    assert_eq!(w.chunk(), b"bc");
    let failed = w.write_to_fd(Err(SysError::sys(libc::EIO, "write")));
    assert!(matches!(failed, WriteStep::Done(Err(ref e)) if e.raw_os_error() == Some(libc::EIO)));
    assert!(w.is_finished());

    let mut w = WriterState::new(boxed(b"abc"));
    assert!(matches!(w.write_to_fd(Ok(Some(0))), WriteStep::Done(Ok(true))));
    assert!(w.is_finished());

    let mut w = WriterState::new(boxed(b"abc"));
    w.abandon();
    assert!(w.is_finished());
}

#[test]
fn the_limit_is_on_both_streams_together() {
    let mut b = BufferState::new(10);
    let mut never: Option<Never> = None;
    assert_eq!(b.next_read(), 10);
    let step = b.read_from_fd(true, Ok(Some(6)), b"abcdef", &mut never);
    assert!(matches!(step, ReadStep::Read { want: 4 }));
    let step = b.read_from_fd(false, Ok(Some(4)), b"ghij....", &mut never);
    assert!(matches!(step, ReadStep::Read { want: DISCARD_CHUNK }));
    // What comes now is read and dropped.
    let step = b.read_from_fd(true, Ok(Some(3)), b"xyz", &mut never);
    assert!(matches!(step, ReadStep::Read { want: DISCARD_CHUNK }));
    assert!(matches!(b.read_from_fd(true, Ok(Some(0)), b"", &mut never), ReadStep::Done(Ok(true))));
    assert_eq!(b.into_parts(), (b"abcdef".to_vec(), b"ghij".to_vec()));
}

#[test]
fn reads_end_at_eof_block_and_failure() {
    let mut b = BufferState::new(READ_CHUNK * 3);
    let mut never: Option<Never> = None;
    assert_eq!(b.next_read(), READ_CHUNK);
    assert!(matches!(b.read_from_fd(true, Ok(None), b"", &mut never), ReadStep::Done(Ok(false))));
    assert!(matches!(b.read_from_fd(false, Ok(Some(0)), b"", &mut never), ReadStep::Done(Ok(true))));
    let failed = b.read_from_fd(true, Err(SysError::sys(libc::EIO, "read")), b"", &mut never);
    assert!(matches!(failed, ReadStep::Done(Err(ref e)) if e.raw_os_error() == Some(libc::EIO)));
    assert_eq!(b.into_parts(), (vec![], vec![]));
}

#[test]
fn a_limit_of_nothing_keeps_nothing() {
    let mut b = BufferState::new(0);
    let mut never: Option<Never> = None;
    assert_eq!(b.next_read(), DISCARD_CHUNK);
    assert!(matches!(
        b.read_from_fd(true, Ok(Some(1)), b"a", &mut never),
        ReadStep::Read { want: DISCARD_CHUNK }
    ));
    assert_eq!(b.into_parts(), (vec![], vec![]));
}

#[test]
fn early_exit_is_asked_about_stdout_only() {
    let mut b = BufferState::new(100);
    let mut seen = 0;
    let mut stop = Some(|chunk: &[u8]| {
        seen += 1;
        chunk.contains(&b'!')
    });
    assert!(matches!(b.read_from_fd(true, Ok(Some(2)), b"ab", &mut stop), ReadStep::Read { .. }));
    assert!(matches!(b.read_from_fd(false, Ok(Some(1)), b"!", &mut stop), ReadStep::Read { .. }));
    assert!(matches!(b.read_from_fd(true, Ok(Some(2)), b"c!", &mut stop), ReadStep::Done(Ok(true))));
    assert_eq!(seen, 2);
    assert_eq!(b.into_parts(), (b"abc!".to_vec(), b"!".to_vec()));
}

#[test]
fn a_drain_keeps_the_pipes_that_it_needs() {
    let d = DrainState::<i32, Never>::new(0, Some(3), None, Some(4), None, 10, None);
    assert!(d.fd(Stream::Stdin).is_none());
    assert_eq!(d.fd(Stream::Stdout), Some(&4));
    assert!(d.fd(Stream::Stderr).is_none());
    assert!(!d.is_done());
    let d = DrainState::<i32, Never>::new(0, Some(3), boxed(b"x"), None, None, 10, None);
    assert_eq!(d.fd(Stream::Stdin), Some(&3));
    let d = DrainState::<i32, Never>::new(0, None, boxed(b"x"), None, None, 10, None);
    assert!(d.is_done());
}

#[test]
fn pipes_are_registered_and_found_by_token() {
    let mut d = DrainState::<i32, Never>::new(0, Some(3), boxed(b"x"), Some(4), Some(5), 10, None);
    let mut order = Vec::new();
    while let Some(stream) = d.next_unregistered() {
        order.push(stream);
        d.assign(stream, Token::new(order.len() as u64));
    }
    assert_eq!(order, vec![Stream::Stdin, Stream::Stdout, Stream::Stderr]);
    let event = |t: u64, readable: bool, writable: bool, error: bool| Event {
        token: Token::new(t),
        readable,
        writable,
        error,
    };
    assert_eq!(d.target(event(1, false, true, false)), Some(Stream::Stdin));
    assert_eq!(d.target(event(1, true, false, false)), None);
    assert_eq!(d.target(event(2, true, false, false)), Some(Stream::Stdout));
    assert_eq!(d.target(event(2, false, true, false)), None);
    assert_eq!(d.target(event(3, true, true, true)), Some(Stream::Stderr));
    assert_eq!(d.target(event(4, true, true, true)), None);
}

#[test]
fn a_drain_hands_over_finished_pipes() {
    let mut d = DrainState::<i32, Never>::new(0, Some(3), boxed(b"hi"), Some(4), Some(5), 10, None);
    assert!(matches!(d.start_write(), DrainStep::Transfer { len: 2 }));
    assert!(matches!(d.write_stdin(Ok(None)), DrainStep::Done(Ok(None))));
    let done = d.write_stdin(Ok(Some(2)));
    assert!(matches!(done, DrainStep::Done(Ok(Some(ref slot))) if slot.fd == 3));
    assert!(matches!(d.start_write(), DrainStep::Done(Ok(None))));

    assert!(matches!(d.start_read(true), DrainStep::Transfer { len: 10 }));
    assert!(matches!(d.read_fd(true, Ok(Some(3)), b"out"), DrainStep::Transfer { len: 7 }));
    assert!(matches!(d.read_fd(true, Ok(None), b""), DrainStep::Done(Ok(None))));
    let eof = d.read_fd(true, Ok(Some(0)), b"");
    assert!(matches!(eof, DrainStep::Done(Ok(Some(ref slot))) if slot.fd == 4));
    assert!(matches!(d.start_read(true), DrainStep::Done(Ok(None))));

    let failed = d.read_fd(false, Err(SysError::sys(libc::EIO, "read")), b"");
    assert!(matches!(failed, DrainStep::Done(Err(_))));
    assert_eq!(d.fd(Stream::Stderr), Some(&5));
    let left = d.take_all_slots();
    assert_eq!(left.len(), 1);
    assert_eq!(left[0].fd, 5);
    assert!(d.is_done());
    assert_eq!(d.into_parts(), (b"out".to_vec(), vec![]));
}
