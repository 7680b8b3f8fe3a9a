use coreshift_lowlevel::io::Stream;
use coreshift_lowlevel::reactor::{Event, Token};
use coreshift_lowlevel::spawn::{
    exit_timeout, poll_timeout, Action, ExitStatus, KillState, Output, Pipes, Process, RunningProcess,
    SpawnOptions, Supervisor, SysError, Watchdog, EXIT_POLL_MS,
};
use coreshift_lowlevel::sys::{CancelPolicy, ProcessGroup, SIGKILL, SIGTERM};
use std::collections::VecDeque;

type Never = fn(&[u8]) -> bool;

/// A child that the tests make up: what it writes, and when it is seen to end.
struct Script {
    stdout: VecDeque<Vec<u8>>,
    stderr: VecDeque<Vec<u8>>,
    status: ExitStatus,
    /// How many looks at the child show it running.
    looks_before_end: usize,
    /// Whether the pipes show as hung up, with what was written still in them.
    hangup: bool,
    /// Readings of the clock, in milliseconds; the last one stays.
    clock_ms: VecDeque<u64>,
    signal_ok: bool,
    // What the tests look at afterwards.
    signals: Vec<(i32, bool)>,
    polls: Vec<i32>,
    forgotten: Vec<i32>,
    written: Vec<u8>,
}

impl Script {
    fn new(stdout: &[&[u8]]) -> Self {
        Script {
            stdout: stdout.iter().map(|c| c.to_vec()).collect(),
            stderr: VecDeque::new(),
            status: ExitStatus::Exited(0),
            looks_before_end: 2,
            hangup: true,
            clock_ms: VecDeque::from([0]),
            signal_ok: true,
            signals: Vec::new(),
            polls: Vec::new(),
            forgotten: Vec::new(),
            written: Vec::new(),
        }
    }

    fn look(&mut self) -> Option<ExitStatus> {
        if self.looks_before_end == 0 {
            Some(self.status)
        } else {
            self.looks_before_end -= 1;
            None
        }
    }
}

fn event(token: u64, readable: bool, writable: bool, error: bool) -> Event {
    Event { token: Token::new(token), readable, writable, error }
}

fn pipes_for(opts: &SpawnOptions<Never>) -> Pipes<i32> {
    let mut pipes = Pipes::new();
    let mut next = 10;
    while let Some(stream) =
        pipes.next_wanted(opts.stdin.is_some(), opts.capture_stdout, opts.capture_stderr)
    {
        pipes.install(stream, next, next + 1);
        next += 2;
    }
    pipes
}

/// Runs a made-up child under supervision.
fn run(opts: SpawnOptions<Never>, script: &mut Script) -> Result<Output, SysError> {
    let drain = pipes_for(&opts).into_drain(0, opts.stdin, opts.max_output, opts.early_exit);
    let running = RunningProcess { process: Process::new(4242), drain };
    let (mut sup, mut action) = Supervisor::start(
        running,
        opts.wait,
        opts.timeout_ms,
        opts.kill_grace_ms,
        opts.cancel,
        opts.pgroup,
    );
    let mut tokens: Vec<(Stream, u64)> = Vec::new();
    for _ in 0..100_000 {
        action = match action {
            Action::Register { stream, readable, writable } => {
                assert_eq!(writable, stream == Stream::Stdin);
                assert_eq!(readable, stream != Stream::Stdin);
                let token = tokens.len() as u64 + 1;
                tokens.push((stream, token));
                sup.registered(Ok(Token::new(token)))
            }
            Action::CheckChild => {
                let seen = script.look();
                sup.checked(Ok(seen))
            }
            Action::ReadClock => {
                let ms = script.clock_ms[0];
                if script.clock_ms.len() > 1 {
                    script.clock_ms.pop_front();
                }
                sup.clocked(ms as u128 * 1_000_000)
            }
            Action::Signal { signal, group } => {
                script.signals.push((signal, group));
                let ok = script.signal_ok;
                sup.signalled(ok)
            }
            Action::AwaitChild => sup.awaited(Ok(script.status)),
            Action::Poll { timeout } => {
                script.polls.push(timeout);
                let mut events = Vec::new();
                for (stream, token) in &tokens {
                    if sup.fd(*stream).is_none() {
                        continue;
                    }
                    match stream {
                        Stream::Stdin => events.push(event(*token, false, true, false)),
                        Stream::Stdout | Stream::Stderr => {
                            events.push(event(*token, true, script.hangup, script.hangup))
                        }
                    }
                }
                events.push(event(999, true, true, true));
                sup.polled(Ok(events))
            }
            Action::Read { is_stdout, len } => {
                let source = if is_stdout { &mut script.stdout } else { &mut script.stderr };
                match source.pop_front() {
                    Some(mut chunk) => {
                        if chunk.len() > len {
                            source.push_front(chunk.split_off(len));
                        }
                        let n = chunk.len();
                        sup.read(Ok(Some(n)), &chunk)
                    }
                    None => sup.read(Ok(Some(0)), &[]),
                }
            }
            Action::Write { len } => {
                let n = if len > 3 { len - 1 } else { len };
                script.written.extend_from_slice(&sup.chunk()[..n]);
                sup.wrote(Ok(Some(n)))
            }
            Action::Forget(slot) => {
                script.forgotten.push(slot.fd);
                sup.forgot()
            }
            Action::Finish => return Ok(sup.into_output()),
            Action::Fail(e) => return Err(e),
        };
    }
    panic!("the supervisor does not come to an end");
}

fn builder(args: &[&str]) -> SpawnOptions<Never> {
    SpawnOptions::builder(args.iter().map(|a| a.to_string()).collect())
        .capture_stdout()
        .build()
        .unwrap()
}

#[test]
fn test_spawn_echo_capture() {
    let opts = SpawnOptions::builder(vec![
        "/bin/sh".to_string(),
        "-c".to_string(),
        "echo hello world".to_string(),
    ])
    .capture_stdout()
    .build()
    .unwrap();
    let output = run(opts, &mut Script::new(&[b"hello world\n"])).unwrap();

    assert_eq!(output.status, Some(ExitStatus::Exited(0)));
    assert_eq!(String::from_utf8_lossy(&output.stdout).trim(), "hello world");
}

#[test]
fn test_spawn_large_stdout() {
    // ~100KB of output
    let script = "for i in $(seq 1 10000); do echo \"line $i\"; done";
    let opts = SpawnOptions::builder(vec![
        "/bin/sh".to_string(),
        "-c".to_string(),
        script.to_string(),
    ])
    .capture_stdout()
    .max_output(200_000)
    .build()
    .unwrap();
    let text: String = (1..=10000).map(|i| format!("line {i}\n")).collect();
    let chunks: Vec<&[u8]> = text.as_bytes().chunks(4096).collect();
    let output = run(opts, &mut Script::new(&chunks)).unwrap();

    assert_eq!(output.status, Some(ExitStatus::Exited(0)));
    assert!(output.stdout.len() > 65536);
    assert_eq!(output.stdout, text.as_bytes());
}

#[test]
fn test_exec_context_many_args() {
    let mut args = vec![
        "/bin/sh".to_string(),
        "-c".to_string(),
        "echo $@".to_string(),
        "--".to_string(),
    ];
    for i in 0..100 {
        args.push(format!("arg{}", i));
    }
    let opts: SpawnOptions<Never> =
        SpawnOptions::builder(args).capture_stdout().build().unwrap();
    // What the shell is given is what it echoes.
    let echoed: Vec<u8> = opts.ctx.argv()[4..]
        .iter()
        .flat_map(|a| [a.bytes(), b" "].concat())
        .collect();
    let output = run(opts, &mut Script::new(&[&echoed])).unwrap();

    assert_eq!(output.status, Some(ExitStatus::Exited(0)));
    let stdout = String::from_utf8_lossy(&output.stdout);
    assert!(stdout.contains("arg0"));
    assert!(stdout.contains("arg99"));
}

#[test]
fn output_left_at_a_hangup_is_captured() {
    let mut script = Script::new(&[b"one ", b"two ", b"three"]);
    let output = run(builder(&["x"]), &mut script).unwrap();
    assert_eq!(output.stdout, b"one two three");
    assert_eq!(script.forgotten, vec![10]);

    let mut script = Script::new(&[b"one ", b"two"]);
    script.hangup = false;
    let output = run(builder(&["x"]), &mut script).unwrap();
    assert_eq!(output.stdout, b"one two");
    assert!(script.forgotten.is_empty());
}

#[test]
fn both_streams_and_stdin_are_served() {
    let mut opts = builder(&["cat"]);
    opts.capture_stderr = true;
    opts.stdin = Some(b"some input".to_vec().into_boxed_slice());
    let mut script = Script::new(&[b"out"]);
    script.stderr = VecDeque::from([b"err".to_vec()]);
    script.status = ExitStatus::Signaled(9);
    let output = run(opts, &mut script).unwrap();
    assert_eq!(output.pid, 4242);
    assert_eq!(output.stdout, b"out");
    assert_eq!(output.stderr, b"err");
    assert_eq!(output.status, Some(ExitStatus::Signaled(9)));
    assert!(!output.timed_out);
    assert_eq!(script.written, b"some input");
}

#[test]
fn output_beyond_the_limit_is_dropped() {
    let mut opts = builder(&["x"]);
    opts.max_output = 5;
    let output = run(opts, &mut Script::new(&[b"abc", b"def", b"ghi"])).unwrap();
    assert_eq!(output.stdout, b"abcde");
}

#[test]
fn early_exit_ends_the_capture() {
    let mut opts = builder(&["x"]);
    opts.early_exit = Some(|chunk: &[u8]| chunk.contains(&b'!'));
    let output = run(opts, &mut Script::new(&[b"a", b"b!", b"c"])).unwrap();
    assert_eq!(output.stdout, b"ab!");
    assert_eq!(output.status, Some(ExitStatus::Exited(0)));
}

#[test]
fn background_processes_are_left_alone() {
    let mut opts = SpawnOptions::<Never>::builder(vec!["x".to_string()]).build().unwrap();
    opts.wait = false;
    let mut script = Script::new(&[]);
    let output = run(opts, &mut script).unwrap();
    assert_eq!(output.status, None);
    assert!(!output.timed_out);
    assert!(script.polls.is_empty());
    assert_eq!(script.looks_before_end, 2);
}

#[test]
fn a_process_without_pipes_is_awaited() {
    let opts = SpawnOptions::<Never>::builder(vec!["x".to_string()]).build().unwrap();
    let mut script = Script::new(&[]);
    script.looks_before_end = 50;
    script.status = ExitStatus::Exited(3);
    let output = run(opts, &mut script).unwrap();
    assert_eq!(output.status, Some(ExitStatus::Exited(3)));
    assert!(script.polls.is_empty());
}

#[test]
fn polls_wait_as_long_as_they_may() {
    let mut script = Script::new(&[b"a"]);
    script.looks_before_end = 1000;
    run(builder(&["x"]), &mut script).unwrap();
    assert_eq!(script.polls, vec![-1]);

    let mut script = Script::new(&[b"a"]);
    script.looks_before_end = 0;
    run(builder(&["x"]), &mut script).unwrap();
    assert_eq!(script.polls, vec![1]);

    let mut opts = builder(&["x"]);
    opts.timeout_ms = Some(5000);
    let mut script = Script::new(&[b"a"]);
    script.clock_ms = VecDeque::from([20]);
    run(opts, &mut script).unwrap();
    assert_eq!(script.polls, vec![4980]);
}

#[test]
fn timeouts_follow_the_policy() {
    // Output trickles in, so that there are many rounds.
    let trickle: Vec<&[u8]> = vec![b"x"; 8];
    let timed = |cancel: CancelPolicy, group: ProcessGroup, signal_ok: bool| {
        let mut opts = builder(&["x"]);
        opts.timeout_ms = Some(100);
        opts.kill_grace_ms = 50;
        opts.cancel = cancel;
        opts.pgroup = group;
        let mut script = Script::new(&trickle);
        script.hangup = false;
        script.looks_before_end = 1000;
        script.clock_ms = VecDeque::from([0, 99, 100, 120, 150, 151, 152]);
        script.signal_ok = signal_ok;
        let mut blocked = script.stdout.clone();
        script.stdout.clear();
        // One chunk per poll: a read that finds nothing would block.
        let drain = pipes_for(&opts).into_drain(0, None, 100, None::<Never>);
        let running = RunningProcess { process: Process::new(1), drain };
        let (mut sup, mut action) = Supervisor::start(
            running,
            opts.wait,
            opts.timeout_ms,
            opts.kill_grace_ms,
            opts.cancel,
            opts.pgroup,
        );
        let mut sent = Vec::new();
        let mut ready = false;
        loop {
            action = match action {
                Action::Register { .. } => sup.registered(Ok(Token::new(1))),
                Action::CheckChild => sup.checked(Ok(None)),
                Action::ReadClock => {
                    let ms = script.clock_ms[0];
                    if script.clock_ms.len() > 1 {
                        script.clock_ms.pop_front();
                    }
                    sup.clocked(ms as u128 * 1_000_000)
                }
                Action::Signal { signal, group } => {
                    sent.push((signal, group));
                    sup.signalled(signal_ok)
                }
                Action::Poll { .. } => {
                    ready = true;
                    sup.polled(Ok(vec![event(1, true, false, false)]))
                }
                Action::Read { .. } => {
                    if ready {
                        ready = false;
                        match blocked.pop_front() {
                            Some(chunk) => sup.read(Ok(Some(chunk.len())), &chunk),
                            None => sup.read(Ok(Some(0)), &[]),
                        }
                    } else {
                        sup.read(Ok(None), &[])
                    }
                }
                Action::AwaitChild => sup.awaited(Ok(ExitStatus::Signaled(9))),
                Action::Finish => break,
                _ => panic!("not called for"),
            };
        }
        let output = sup.into_output();
        assert!(output.timed_out);
        assert_eq!(output.stdout, b"xxxxxxxx");
        sent
    };
    let alone = ProcessGroup::default();
    assert_eq!(timed(CancelPolicy::DoNothing, alone, true), vec![]);
    assert_eq!(timed(CancelPolicy::Kill, alone, true), vec![(SIGKILL, false)]);
    assert_eq!(
        timed(CancelPolicy::Graceful, alone, true),
        vec![(SIGTERM, false), (SIGKILL, false)]
    );
    // Where SIGTERM cannot be sent, nothing more is.
    assert_eq!(timed(CancelPolicy::Graceful, alone, false), vec![(SIGTERM, false)]);
    assert_eq!(
        timed(CancelPolicy::Kill, ProcessGroup::new(None, true), true),
        vec![(SIGKILL, true)]
    );
}

#[test]
fn the_watchdog_keeps_to_the_grace_period() {
    let ms = |n: u128| n * 1_000_000;
    let mut w = Watchdog::new(Some(10), 5, CancelPolicy::Graceful);
    let tick = w.tick(ms(10) - 1);
    assert_eq!((tick.signal, tick.poll_timeout), (None, 0));
    assert!(!w.timed_out);
    let tick = w.tick(ms(10));
    assert_eq!((tick.signal, tick.poll_timeout), (Some(SIGTERM), 100));
    assert!(w.timed_out);
    w.sent(SIGTERM, true);
    assert_eq!(w.state, KillState::TermSent(ms(10)));
    assert_eq!(w.tick(ms(15)).signal, None);
    assert_eq!(w.tick(ms(16) - 1).signal, None);
    assert_eq!(w.tick(ms(16)).signal, Some(SIGKILL));
    w.sent(SIGKILL, false);
    assert_eq!(w.state, KillState::KillSent);
    assert_eq!(w.tick(ms(1000)).signal, None);

    // A SIGTERM that is late leaves the whole grace period.
    let mut w = Watchdog::new(Some(0), 1000, CancelPolicy::Graceful);
    assert_eq!(w.tick(ms(5000)).signal, Some(SIGTERM));
    w.sent(SIGTERM, true);
    assert_eq!(w.tick(ms(5000) + 1).signal, None);
    assert_eq!(w.tick(ms(6000)).signal, None);
    assert_eq!(w.tick(ms(6001)).signal, Some(SIGKILL));

    let mut w = Watchdog::new(None, 5, CancelPolicy::Kill);
    let tick = w.tick(u128::MAX);
    assert_eq!((tick.signal, tick.poll_timeout), (None, -1));
    let mut w = Watchdog::new(Some(u32::MAX), 5, CancelPolicy::Kill);
    assert_eq!(w.tick(0).poll_timeout, i32::MAX);

    assert_eq!(poll_timeout(true, -1), 1);
    assert_eq!(poll_timeout(true, 100), 1);
    assert_eq!(poll_timeout(true, 0), 0);
    assert_eq!(poll_timeout(false, -1), -1);
    assert_eq!(poll_timeout(false, 100), 100);
    assert_eq!(exit_timeout(4), 4);
    assert_eq!(exit_timeout(0), 0);
    assert_eq!(exit_timeout(100), EXIT_POLL_MS);
    assert_eq!(exit_timeout(-1), EXIT_POLL_MS);
}

#[test]
fn a_deadline_is_kept_without_pipes() {
    let timed = |cancel: CancelPolicy, clock_ms: &[u64], status: ExitStatus| {
        let args = vec!["/bin/sleep".to_string(), "10".to_string()];
        let mut opts = SpawnOptions::<Never>::builder(args).max_output(0).build().unwrap();
        opts.timeout_ms = Some(50);
        opts.kill_grace_ms = 20;
        opts.cancel = cancel;
        let mut script = Script::new(&[]);
        script.looks_before_end = 1000;
        script.clock_ms = clock_ms.iter().copied().collect();
        script.status = status;
        let output = run(opts, &mut script).unwrap();
        assert!(output.timed_out);
        assert_eq!(output.status, Some(status));
        (script.signals, script.polls)
    };
    let (signals, polls) =
        timed(CancelPolicy::Kill, &[0, 45, 50], ExitStatus::Signaled(9));
    assert_eq!(signals, vec![(SIGKILL, false)]);
    assert_eq!(polls, vec![EXIT_POLL_MS, 5]);
    let (signals, polls) =
        timed(CancelPolicy::Graceful, &[0, 60, 70, 81], ExitStatus::Signaled(9));
    assert_eq!(signals, vec![(SIGTERM, false), (SIGKILL, false)]);
    assert_eq!(polls, vec![EXIT_POLL_MS; 3]);
    let (signals, _) = timed(CancelPolicy::DoNothing, &[0, 60], ExitStatus::Exited(0));
    assert!(signals.is_empty());
}

#[test]
fn an_end_before_the_deadline_is_noticed_without_pipes() {
    let mut opts = SpawnOptions::<Never>::builder(vec!["x".to_string()]).build().unwrap();
    opts.timeout_ms = Some(5000);
    opts.cancel = CancelPolicy::Kill;
    let mut script = Script::new(&[]);
    script.looks_before_end = 4;
    let output = run(opts, &mut script).unwrap();
    assert_eq!(output.status, Some(ExitStatus::Exited(0)));
    assert!(!output.timed_out);
    assert!(script.signals.is_empty());
    assert_eq!(script.polls, vec![EXIT_POLL_MS; 3]);
}

#[test]
fn failures_end_the_supervision() {
    let start = || {
        let opts = builder(&["x"]);
        let drain = pipes_for(&opts).into_drain(0, None, 10, None::<Never>);
        let running = RunningProcess { process: Process::new(1), drain };
        Supervisor::start(running, true, None, 0, CancelPolicy::Kill, ProcessGroup::default()).0
    };
    let error = |op: &str| SysError::sys(5, op);
    let failed = |action: Action<i32>, op: &str| match action {
        Action::Fail(e) => assert_eq!(e.message(), format!("{op} failed (code=5)")),
        _ => panic!("no failure"),
    };
    failed(start().registered(Err(error("a"))), "a");

    let mut sup = start();
    sup.registered(Ok(Token::new(1)));
    failed(sup.checked(Err(error("b"))), "b");

    let mut sup = start();
    sup.registered(Ok(Token::new(1)));
    sup.checked(Ok(None));
    failed(sup.checked(Err(error("c"))), "c");

    let mut sup = start();
    sup.registered(Ok(Token::new(1)));
    sup.checked(Ok(None));
    sup.checked(Ok(None));
    failed(sup.polled(Err(error("d"))), "d");

    let mut sup = start();
    sup.registered(Ok(Token::new(1)));
    sup.checked(Ok(None));
    sup.checked(Ok(None));
    let read = sup.polled(Ok(vec![event(1, true, false, false)]));
    assert!(matches!(read, Action::Read { is_stdout: true, len: 10 }));
    failed(sup.read(Err(error("e")), &[]), "e");

    // A pipe that hung up is given up, whatever ended the reading.
    let mut sup = start();
    sup.registered(Ok(Token::new(1)));
    sup.checked(Ok(None));
    sup.checked(Ok(None));
    sup.polled(Ok(vec![event(1, true, true, true)]));
    let forget = sup.read(Err(error("f")), &[]);
    assert!(matches!(forget, Action::Forget(ref slot) if slot.fd == 10));
    assert!(matches!(sup.forgot(), Action::CheckChild));
    assert!(matches!(sup.checked(Ok(None)), Action::AwaitChild));
    failed(sup.awaited(Err(error("g"))), "g");
}

#[test]
fn a_stdin_that_hung_up_is_given_up() {
    let mut opts = SpawnOptions::<Never>::builder(vec!["x".to_string()]).build().unwrap();
    opts.stdin = Some(b"never read".to_vec().into_boxed_slice());
    let drain = pipes_for(&opts).into_drain(0, opts.stdin, 10, None::<Never>);
    let running = RunningProcess { process: Process::new(1), drain };
    let (mut sup, _) =
        Supervisor::start(running, true, None, 0, CancelPolicy::Kill, ProcessGroup::default());
    sup.registered(Ok(Token::new(7)));
    sup.checked(Ok(None));
    assert!(matches!(sup.checked(Ok(None)), Action::Poll { timeout: -1 }));
    let forget = sup.polled(Ok(vec![event(7, true, true, true)]));
    assert!(matches!(forget, Action::Forget(ref slot) if slot.fd == 11));
    assert!(sup.chunk().is_empty());
    assert!(matches!(sup.forgot(), Action::CheckChild));
    assert!(matches!(sup.checked(Ok(Some(ExitStatus::Exited(1)))), Action::Finish));
    assert_eq!(sup.into_output().status, Some(ExitStatus::Exited(1)));
}

#[test]
fn a_blocked_or_broken_stdin() {
    let start = || {
        let mut opts = SpawnOptions::<Never>::builder(vec!["x".to_string()]).build().unwrap();
        opts.stdin = Some(b"input".to_vec().into_boxed_slice());
        let drain = pipes_for(&opts).into_drain(0, opts.stdin, 10, None::<Never>);
        let running = RunningProcess { process: Process::new(1), drain };
        let (mut sup, _) =
            Supervisor::start(running, true, None, 0, CancelPolicy::Kill, ProcessGroup::default());
        sup.registered(Ok(Token::new(7)));
        sup.checked(Ok(None));
        sup.checked(Ok(None));
        assert!(matches!(
            sup.polled(Ok(vec![event(7, false, true, false)])),
            Action::Write { len: 5 }
        ));
        assert_eq!(sup.chunk(), b"input");
        sup
    };
    let mut sup = start();
    assert!(matches!(sup.wrote(Ok(None)), Action::CheckChild));
    assert!(sup.fd(Stream::Stdin).is_some());
    let mut sup = start();
    assert!(matches!(sup.wrote(Err(SysError::sys(libc::EPIPE, "write"))), Action::CheckChild));
    assert!(sup.fd(Stream::Stdin).is_none());
    let mut sup = start();
    assert!(matches!(sup.wrote(Err(SysError::sys(libc::EIO, "write"))), Action::Fail(_)));
}
