use coreshift_lowlevel::io::Stream;
use coreshift_lowlevel::spawn::options::{DEFAULT_KILL_GRACE_MS, DEFAULT_MAX_OUTPUT};
use coreshift_lowlevel::spawn::{
    child_plan, close_range_fast, close_ranges, closes_in_child, closes_in_fork, decode_status,
    errno, error_number, fork_side, handled_fds, make_pipe, posix_plan, posix_ret, select_backend, spawn_start,
    standard_number, syscall_result, syscall_ret, Backend, ChildStep, ExitStatus, ForkSide, Pipes,
    PosixOp, Process, Reply, SpawnBackend, SpawnOptions, Step, SysError, EAGAIN, EINTR, EINVAL,
    EPIPE, ESRCH, EWOULDBLOCK, EXEC_FAILED, POSIX_SPAWN_SETPGROUP, POSIX_SPAWN_SETSIGDEF,
    POSIX_SPAWN_SETSIGMASK,
};
use coreshift_lowlevel::sys::{CancelPolicy, ExecContext, ProcessGroup, SIGPIPE};

type Never = fn(&[u8]) -> bool;

fn reply(ret: isize, code: i32) -> Reply {
    Reply { ret, code }
}

fn all_pipes() -> Pipes<i32> {
    let mut p = Pipes::new();
    p.install(Stream::Stdin, 10, 11);
    p.install(Stream::Stdout, 12, 13);
    p.install(Stream::Stderr, 14, 15);
    p
}

#[test]
fn test_process_echild() {
    // A process that is not our child.
    let p = Process::new(999999);
    let res = match p.wait_step(reply(-1, libc::ECHILD), 0) {
        Step::Done(res) => res,
        Step::Retry => panic!("ECHILD is not retried"),
    };
    // Should be an error (ECHILD), not Ok(Some(Exited(0))).
    assert!(res.is_err());
}

#[test]
fn test_spawn_start_wait_false_validation() {
    let ctx = ExecContext::new(
        vec!["/bin/sh".to_string(), "-c".to_string(), "true".to_string()],
        None,
        None,
    )
    .unwrap();
    let mut opts: SpawnOptions<Never> = SpawnOptions {
        ctx,
        stdin: None,
        capture_stdout: false,
        capture_stderr: false,
        wait: false,
        pgroup: ProcessGroup::default(),
        max_output: 1024,
        timeout_ms: None,
        kill_grace_ms: 1000,
        cancel: CancelPolicy::Kill,
        backend: SpawnBackend::Auto,
        early_exit: None,
    };

    // Valid: wait=false, no I/O capture
    assert!(spawn_start(&opts.clone(), Backend::PosixSpawn).is_ok());

    // Invalid: wait=false, capture_stdout=true
    opts.capture_stdout = true;
    assert!(spawn_start(&opts.clone(), Backend::PosixSpawn).is_err());

    // Invalid: wait=false, stdin=Some(...)
    opts.capture_stdout = false;
    opts.stdin = Some(vec![1, 2, 3].into_boxed_slice());
    let e = spawn_start(&opts.clone(), Backend::PosixSpawn).unwrap_err();
    assert_eq!(
        e.message(),
        "background I/O capture not supported (wait must be true) failed (code=22)"
    );

    opts.wait = true;
    assert_eq!(spawn_start(&opts, Backend::Fork).unwrap(), Backend::Fork);
}

#[test]
fn error_numbers_are_those_of_the_kernel() {
    assert_eq!(ESRCH, libc::ESRCH);
    assert_eq!(EINTR, libc::EINTR);
    assert_eq!(EAGAIN, libc::EAGAIN);
    assert_eq!(EWOULDBLOCK, libc::EWOULDBLOCK);
    assert_eq!(EINVAL, libc::EINVAL);
    assert_eq!(EPIPE, libc::EPIPE);
    assert_eq!(POSIX_SPAWN_SETPGROUP, libc::POSIX_SPAWN_SETPGROUP as i32);
    assert_eq!(POSIX_SPAWN_SETSIGDEF, libc::POSIX_SPAWN_SETSIGDEF as i32);
    assert_eq!(POSIX_SPAWN_SETSIGMASK, libc::POSIX_SPAWN_SETSIGMASK as i32);
}

#[test]
fn errors_carry_code_and_operation() {
    let e = SysError::sys(-7, "op");
    assert_eq!(e.raw_os_error(), Some(-7));
    assert_eq!(e.message(), "op failed (code=-7)");
    assert!(syscall_result(0, 5, "x").is_ok());
    assert!(syscall_result(-2, 5, "x").is_ok());
    assert_eq!(syscall_result(-1, 5, "x").unwrap_err().message(), "x failed (code=5)");
    assert!(posix_ret(0, "x").is_ok());
    assert_eq!(posix_ret(12, "x").unwrap_err().message(), "x failed (code=12)");
    assert!(syscall_ret(3, "x").is_ok());
    let e = syscall_ret(-1, "x").unwrap_err();
    assert!(e.message().starts_with("x failed (code="));
}

#[test]
fn an_error_without_a_number_counts_as_zero() {
    assert_eq!(error_number(Some(libc::ENOENT)), libc::ENOENT);
    assert_eq!(error_number(Some(-1)), -1);
    assert_eq!(error_number(None), 0);
}

#[test]
fn the_last_error_is_that_of_the_thread() {
    // Reading a link that is not there leaves ENOENT behind.
    let missing = std::path::Path::new("/nonexistent/coreshift/file");
    assert!(missing.read_link().is_err());
    assert_eq!(errno(), libc::ENOENT);
    assert_eq!(syscall_ret(-1, "readlink").unwrap_err().raw_os_error(), Some(libc::ENOENT));
}

#[test]
fn wait_statuses_decode() {
    assert_eq!(decode_status(0), ExitStatus::Exited(0));
    assert_eq!(decode_status(3 << 8), ExitStatus::Exited(3));
    assert_eq!(decode_status(255 << 8), ExitStatus::Exited(255));
    assert_eq!(decode_status(9), ExitStatus::Signaled(9));
    assert_eq!(decode_status(15 | 0x80), ExitStatus::Signaled(15));
    // Stopped and continued processes have neither exited nor died.
    assert_eq!(decode_status(0x137f), ExitStatus::Exited(-1));
    assert_eq!(decode_status(0xffff), ExitStatus::Exited(-1));
}

#[test]
fn waiting_for_a_process() {
    let p = Process::new(42);
    assert_eq!(p.pid(), 42);
    assert_eq!(p.group(), -42);
    assert!(matches!(p.wait_step(reply(0, 0), 0), Step::Done(Ok(None))));
    assert!(matches!(
        p.wait_step(reply(42, 0), 7 << 8),
        Step::Done(Ok(Some(ExitStatus::Exited(7))))
    ));
    assert!(matches!(p.wait_step(reply(-1, libc::EINTR), 0), Step::Retry));
    assert!(
        matches!(p.wait_step(reply(-1, libc::ECHILD), 0), Step::Done(Err(ref e)) if e.message() == "waitpid_step failed (code=10)")
    );
    assert!(matches!(
        p.wait_blocking(reply(42, 0), 9),
        Step::Done(Ok(ExitStatus::Signaled(9)))
    ));
    assert!(matches!(p.wait_blocking(reply(-1, libc::EINTR), 0), Step::Retry));
    assert!(
        matches!(p.wait_blocking(reply(-1, libc::ECHILD), 0), Step::Done(Err(ref e)) if e.message() == "waitpid_blocking failed (code=10)")
    );
}

#[test]
fn signalling_a_process() {
    let p = Process::new(42);
    assert!(p.kill(reply(0, 0)).is_ok());
    assert!(p.kill(reply(-1, libc::ESRCH)).is_ok());
    assert_eq!(
        p.kill(reply(-1, libc::EPERM)).unwrap_err().message(),
        "kill failed (code=1)"
    );
    assert!(p.kill_pgroup(reply(-1, libc::ESRCH)).is_ok());
    assert_eq!(
        p.kill_pgroup(reply(-1, libc::EPERM)).unwrap_err().message(),
        "kill_pgroup failed (code=1)"
    );
}

#[test]
fn backends_are_selected_by_platform() {
    assert_eq!(select_backend(None), Backend::PosixSpawn);
    assert_eq!(select_backend(Some(b"31")), Backend::Fork);
    assert_eq!(select_backend(Some(b"32")), Backend::PosixSpawn);
    assert_eq!(select_backend(Some(b"")), Backend::PosixSpawn);
    assert_eq!(select_backend(Some(b"S")), Backend::PosixSpawn);
    assert_eq!(select_backend(Some(&[0xff])), Backend::PosixSpawn);
}

#[test]
fn isolation_and_directories_need_fork() {
    let with = |cwd: Option<String>, isolated: bool, backend: SpawnBackend| {
        let mut opts = SpawnOptions::<Never>::builder(vec!["x".to_string()]).build().unwrap();
        opts.ctx = ExecContext::new(vec!["x".to_string()], None, cwd).unwrap();
        opts.pgroup = ProcessGroup::new(None, isolated);
        opts.backend = backend;
        opts
    };
    let plain = with(None, false, SpawnBackend::Auto);
    assert!(!plain.force_fork());
    assert_eq!(plain.resolve_backend(Backend::PosixSpawn), Backend::PosixSpawn);
    assert_eq!(plain.resolve_backend(Backend::Fork), Backend::Fork);
    let forced = with(None, false, SpawnBackend::Fork);
    assert_eq!(forced.resolve_backend(Backend::PosixSpawn), Backend::Fork);
    let forced = with(None, false, SpawnBackend::PosixSpawn);
    assert_eq!(forced.resolve_backend(Backend::Fork), Backend::PosixSpawn);
    for opts in [
        with(Some("/".to_string()), false, SpawnBackend::PosixSpawn),
        with(None, true, SpawnBackend::PosixSpawn),
    ] {
        assert!(opts.force_fork());
        assert_eq!(opts.resolve_backend(Backend::PosixSpawn), Backend::Fork);
    }
}

#[test]
fn built_options_have_defaults() {
    let opts = SpawnOptions::<Never>::builder(vec!["ls".to_string(), "-l".to_string()])
        .capture_stdout()
        .timeout_ms(5000)
        .build()
        .unwrap();
    assert!(opts.capture_stdout);
    assert!(!opts.capture_stderr);
    assert!(opts.wait);
    assert_eq!(opts.timeout_ms, Some(5000));
    assert_eq!(opts.max_output, DEFAULT_MAX_OUTPUT);
    assert_eq!(opts.kill_grace_ms, DEFAULT_KILL_GRACE_MS);
    assert_eq!(opts.cancel, CancelPolicy::DoNothing);
    assert_eq!(opts.backend, SpawnBackend::Auto);
    assert!(opts.stdin.is_none());
    assert_eq!(opts.ctx.argv().len(), 2);
    let opts = SpawnOptions::<Never>::builder(vec!["ls".to_string()])
        .max_output(200_000)
        .build()
        .unwrap();
    assert_eq!(opts.max_output, 200_000);
    assert!(SpawnOptions::<Never>::builder(vec![]).build().is_err());
    assert!(SpawnOptions::<Never>::builder(vec!["\0".to_string()]).build().is_err());
}

#[test]
fn pipes_are_made_in_order() {
    let mut p: Pipes<i32> = Pipes::new();
    assert_eq!(p.next_wanted(false, false, false), None);
    assert_eq!(p.next_wanted(true, true, true), Some(Stream::Stdin));
    p.install(Stream::Stdin, 3, 4);
    assert_eq!(p.next_wanted(true, true, true), Some(Stream::Stdout));
    assert_eq!(p.next_wanted(true, false, true), Some(Stream::Stderr));
    p.install(Stream::Stdout, 5, 6);
    p.install(Stream::Stderr, 7, 8);
    assert_eq!(p.next_wanted(true, true, true), None);
    p.close_all();
    assert_eq!(p.next_wanted(true, true, true), Some(Stream::Stdin));
}

#[test]
fn pipe_replies() {
    let (r, w) = make_pipe(reply(0, 0), [3, 4]).unwrap();
    assert_eq!((r.raw(), w.raw()), (3, 4));
    for (rep, fds) in [
        (reply(-1, libc::EMFILE), [0, 0]),
        (reply(0, libc::EMFILE), [-1, 4]),
        (reply(0, libc::EMFILE), [3, -1]),
    ] {
        assert_eq!(make_pipe(rep, fds).unwrap_err().message(), "pipe2 failed (code=24)");
    }
}

#[test]
fn the_parent_keeps_its_ends() {
    let d = all_pipes().into_drain::<Never>(0, Some(vec![1].into_boxed_slice()), 10, None);
    assert_eq!(d.fd(Stream::Stdin), Some(&11));
    assert_eq!(d.fd(Stream::Stdout), Some(&12));
    assert_eq!(d.fd(Stream::Stderr), Some(&14));
}

#[test]
fn handled_descriptors_are_the_pipe_ends() {
    assert_eq!(handled_fds(&all_pipes()).as_slice(), &[10, 11, 12, 13, 14, 15]);
    assert!(handled_fds(&Pipes::new()).is_empty());
    let mut p = Pipes::new();
    p.install(Stream::Stderr, 7, 8);
    assert_eq!(handled_fds(&p).as_slice(), &[7, 8]);
}

#[test]
fn listed_descriptors_are_closed() {
    let handled = handled_fds(&all_pipes());
    assert_eq!(closes_in_child(b"3", 5, &handled), Some(3));
    for name in ["0", "1", "2", "5", "10", "15", ".", "..", "", "x", "-4", "99999999999"] {
        assert_eq!(closes_in_child(name.as_bytes(), 5, &handled), None, "{name}");
    }
    assert_eq!(closes_in_fork(b"10", None, 5), Some(10));
    assert_eq!(closes_in_fork(b"10", Some(10), 5), None);
    assert_eq!(closes_in_fork(b"5", Some(10), 5), None);
    assert_eq!(closes_in_fork(b"2", None, 5), None);
}

#[test]
fn ranges_go_around_the_kept_descriptor() {
    assert_eq!(close_ranges(None), vec![(3, u32::MAX)]);
    assert_eq!(close_ranges(Some(7)), vec![(3, 6), (8, u32::MAX)]);
    assert_eq!(close_ranges(Some(3)), vec![(3, 2), (4, u32::MAX)]);
    assert_eq!(close_ranges(Some(-2)), vec![(3, 2), (u32::MAX, u32::MAX)]);
    assert!(close_range_fast(&[0, 0]));
    assert!(!close_range_fast(&[0, -1]));
    assert!(!close_range_fast(&[-1]));
}

#[test]
fn posix_spawn_plan_without_pipes() {
    assert_eq!(
        posix_plan(&Pipes::new(), None),
        vec![
            PosixOp::InitActions,
            PosixOp::CloseListed,
            PosixOp::InitAttributes,
            PosixOp::SetFlags(12),
            PosixOp::BlockNoSignal,
            PosixOp::DefaultSignal(SIGPIPE),
            PosixOp::Spawn,
        ]
    );
}

#[test]
fn posix_spawn_plan_with_pipes() {
    let plan = posix_plan(&all_pipes(), Some(77));
    let (stdin, stdout, stderr) = (Stream::Stdin, Stream::Stdout, Stream::Stderr);
    assert_eq!(
        plan,
        vec![
            PosixOp::InitActions,
            PosixOp::Dup2 { stream: stdin, fd: 10 },
            PosixOp::CloseChildEnd { stream: stdin, fd: 10 },
            PosixOp::CloseParentEnd { stream: stdin, fd: 11 },
            PosixOp::Dup2 { stream: stdout, fd: 13 },
            PosixOp::CloseChildEnd { stream: stdout, fd: 13 },
            PosixOp::CloseParentEnd { stream: stdout, fd: 12 },
            PosixOp::Dup2 { stream: stderr, fd: 15 },
            PosixOp::CloseChildEnd { stream: stderr, fd: 15 },
            PosixOp::CloseParentEnd { stream: stderr, fd: 14 },
            PosixOp::CloseListed,
            PosixOp::InitAttributes,
            PosixOp::JoinGroup(77),
            PosixOp::SetFlags(14),
            PosixOp::BlockNoSignal,
            PosixOp::DefaultSignal(SIGPIPE),
            PosixOp::Spawn,
        ]
    );
    let names: Vec<String> = plan
        .iter()
        .filter_map(|op| op.outcome(5).err())
        .map(|e| e.message())
        .collect();
    let expected = [
        "file_actions_init",
        "dup2 stdin",
        "close stdin pipe",
        "close stdin write pipe",
        "dup2 stdout",
        "close stdout pipe",
        "close stdout read pipe",
        "dup2 stderr",
        "close stderr pipe",
        "close stderr read pipe",
        "attr_init",
        "setpgroup",
        "setflags",
        "setsigmask",
        "setsigdefault",
        "posix_spawn",
    ];
    assert_eq!(
        names,
        expected.iter().map(|op| format!("{op} failed (code=5)")).collect::<Vec<_>>()
    );
    assert!(plan.iter().all(|op| op.outcome(0).is_ok()));
}

#[test]
fn forks_have_two_sides() {
    assert_eq!(fork_side(0, 0).unwrap(), ForkSide::Child);
    assert_eq!(fork_side(12, 0).unwrap(), ForkSide::Parent(12));
    assert_eq!(
        fork_side(-1, libc::EAGAIN).unwrap_err().message(),
        "fork failed (code=11)"
    );
}

#[test]
fn forked_child_plan() {
    assert_eq!(
        child_plan(&Pipes::new(), ProcessGroup::default(), false),
        vec![
            ChildStep::CloseOthers,
            ChildStep::UnblockSignals,
            ChildStep::ResetSignal(SIGPIPE),
            ChildStep::Exec,
        ]
    );
    let mut p = all_pipes();
    p.install(Stream::Stdout, 12, 1);
    assert_eq!(
        child_plan(&p, ProcessGroup::new(Some(5), true), true),
        vec![
            ChildStep::Dup2 { stream: Stream::Stdin, fd: 10 },
            ChildStep::Dup2 { stream: Stream::Stderr, fd: 15 },
            ChildStep::CloseOthers,
            ChildStep::NewSession,
            ChildStep::ChangeDir,
            ChildStep::JoinGroup(5),
            ChildStep::UnblockSignals,
            ChildStep::ResetSignal(SIGPIPE),
            ChildStep::Exec,
        ]
    );
    assert_eq!(standard_number(Stream::Stderr), 2);
    assert_eq!(ChildStep::ChangeDir.exit_code(-1), Some(EXEC_FAILED));
    assert_eq!(ChildStep::ChangeDir.exit_code(0), None);
    assert_eq!(ChildStep::Exec.exit_code(-1), Some(127));
    assert_eq!(ChildStep::NewSession.exit_code(-1), None);
}

/// What a child has open, as number and file.
type Table = std::collections::BTreeMap<i32, &'static str>;

fn parent_table() -> Table {
    let mut t = Table::new();
    for (fd, file) in [(0, "tty in"), (1, "tty out"), (2, "tty err"), (5, "log"), (9, "socket")] {
        t.insert(fd, file);
    }
    for (fd, file) in [
        (10, "in read"),
        (11, "in write"),
        (12, "out read"),
        (13, "out write"),
        (14, "err read"),
        (15, "err write"),
    ] {
        t.insert(fd, file);
    }
    t
}

#[test]
fn a_posix_child_finds_only_its_streams() {
    let pipes = all_pipes();
    let handled = handled_fds(&pipes);
    let mut t = parent_table();
    let names: Vec<String> =
        t.keys().map(|fd| fd.to_string()).chain(["20".to_string(), ".".to_string()]).collect();
    for op in posix_plan(&pipes, None) {
        match op {
            PosixOp::Dup2 { stream, fd } => {
                let file = t[&fd];
                t.insert(standard_number(stream), file);
            }
            PosixOp::CloseChildEnd { fd, .. } | PosixOp::CloseParentEnd { fd, .. } => {
                t.remove(&fd);
            }
            PosixOp::CloseListed => {
                for name in &names {
                    if let Some(fd) = closes_in_child(name.as_bytes(), 20, &handled) {
                        t.remove(&fd);
                    }
                }
            }
            _ => {}
        }
    }
    assert_eq!(t, Table::from([(0, "in read"), (1, "out write"), (2, "err write")]));
}

#[test]
fn a_forked_child_finds_only_its_streams() {
    let mut pipes = Pipes::new();
    pipes.install(Stream::Stdout, 12, 13);
    let mut t = parent_table();
    for step in child_plan(&pipes, ProcessGroup::default(), false) {
        match step {
            ChildStep::Dup2 { stream, fd } => {
                let file = t[&fd];
                t.insert(standard_number(stream), file);
            }
            ChildStep::CloseOthers => {
                let ranges = close_ranges(None);
                t.retain(|fd, _| {
                    !ranges.iter().any(|(a, b)| *a <= *fd as u32 && *fd as u32 <= *b)
                });
            }
            _ => {}
        }
    }
    assert_eq!(t, Table::from([(0, "tty in"), (1, "out write"), (2, "tty err")]));
}

#[test]
fn a_posix_child_inherits_nothing_else_wherever_its_pipes_are() {
    // The ends stand where the standard streams should be.
    let mut pipes = Pipes::new();
    pipes.install(Stream::Stdin, 0, 5);
    pipes.install(Stream::Stderr, 2, 1);
    let handled = handled_fds(&pipes);
    let mut t = parent_table();
    let names: Vec<String> = t.keys().map(|fd| fd.to_string()).collect();
    for op in posix_plan(&pipes, None) {
        match op {
            PosixOp::Dup2 { stream, fd } => {
                if let Some(file) = t.get(&fd).copied() {
                    t.insert(standard_number(stream), file);
                }
            }
            PosixOp::CloseChildEnd { fd, .. } | PosixOp::CloseParentEnd { fd, .. } => {
                t.remove(&fd);
            }
            PosixOp::CloseListed => {
                for name in &names {
                    if let Some(fd) = closes_in_child(name.as_bytes(), 20, &handled) {
                        t.remove(&fd);
                    }
                }
            }
            _ => {}
        }
    }
    assert!(t.keys().all(|fd| (0..=2).contains(fd)));
}
