use coreshift_lowlevel::spawn::{Reply, Step, EINVAL};
use coreshift_lowlevel::sys::{
    join_cmdline, parse_proc_status, path_exists, path_lstat_exists, path_uid, proc_cmdline_path,
    proc_dir, proc_status_path, proc_uid, read_proc_cmdline, readahead, readahead_step,
    readahead_syscall_number, shutdown_requested, sigaction_error, CText, CancelPolicy,
    ExecContext, InstallAction, ProcStatusError, ProcessGroup, ShutdownInstall, SignalRuntime,
    SIGINT, SIGKILL, SIGPIPE, SIGTERM,
};
use std::sync::atomic::{AtomicBool, Ordering};

fn ok() -> Reply {
    Reply { ret: 0, code: 0 }
}

fn failed(code: i32) -> Reply {
    Reply { ret: -1, code }
}

#[test]
fn test_parse_proc_status() {
    let content = "Name:\tcore_daemon\nState:\tR (running)\nUid:\t1000\t1000\t1000\t1000\nGid:\t1000\t1000\t1000\t1000\n";
    let status = parse_proc_status(content).unwrap();
    assert_eq!(status.name, "core_daemon");
    assert_eq!(status.uid, 1000);
}

#[test]
fn test_exec_context_validation() {
    // Empty argv
    let res = ExecContext::new(vec![], None, None);
    assert!(res.is_err());

    // Interior NUL in argv
    let res = ExecContext::new(
        vec!["valid".to_string(), "inv\0alid".to_string()],
        None,
        None,
    );
    assert!(res.is_err());

    // Valid
    let res = ExecContext::new(
        vec!["ls".to_string(), "-l".to_string()],
        None,
        Some("/tmp".to_string()),
    );
    assert!(res.is_ok());
}

#[test]
fn test_readahead_syscall_number_matches_libc() {
    assert_eq!(
        readahead_syscall_number(false, false, libc::SYS_readahead),
        libc::SYS_readahead
    );
    assert_eq!(
        readahead_syscall_number(true, false, libc::SYS_readahead),
        libc::SYS_readahead
    );
    assert_eq!(
        readahead_syscall_number(false, true, libc::SYS_readahead),
        libc::SYS_readahead
    );
}

#[test]
fn test_readahead_syscall_number_android_aarch64_fallback() {
    assert_eq!(readahead_syscall_number(true, true, 0), 213);
}

#[test]
fn exec_context_errors_say_what_is_wrong() {
    let text = |s: &str| s.to_string();
    let message = |argv: Vec<String>, env: Option<Vec<String>>, cwd: Option<String>| {
        let e = ExecContext::new(argv, env, cwd).unwrap_err();
        assert_eq!(e.raw_os_error(), Some(libc::EINVAL));
        e.message()
    };
    assert_eq!(message(vec![], None, None), "exec argv empty failed (code=22)");
    assert_eq!(
        message(vec![text("a\0")], Some(vec![text("\0")]), Some(text("\0"))),
        "exec argv contains nul failed (code=22)"
    );
    assert_eq!(
        message(vec![text("a")], Some(vec![text("A=1"), text("\0")]), Some(text("\0"))),
        "exec env contains nul failed (code=22)"
    );
    assert_eq!(
        message(vec![text("a")], Some(vec![text("A=1")]), Some(text("x\0y"))),
        "exec cwd contains nul failed (code=22)"
    );
}

#[test]
fn exec_context_keeps_what_it_was_given() {
    let ctx = ExecContext::new(
        vec!["/bin/ls".to_string(), "-l".to_string()],
        Some(vec!["PATH=/bin".to_string()]),
        Some("/tmp/\u{e9}".to_string()),
    )
    .unwrap();
    for ctx in [ctx.clone(), ctx] {
        let argv: Vec<&[u8]> = ctx.argv().iter().map(|c| c.bytes()).collect();
        assert_eq!(argv, vec![&b"/bin/ls"[..], &b"-l"[..]]);
        assert_eq!(ctx.exe().bytes(), b"/bin/ls");
        assert_eq!(ctx.envp().unwrap()[0].bytes(), b"PATH=/bin");
        assert_eq!(ctx.cwd().unwrap().bytes(), "/tmp/\u{e9}".as_bytes());
    }
}

#[test]
fn kernel_text_holds_no_nul() {
    assert!(CText::new("a\0b").is_none());
    assert!(CText::new("\0").is_none());
    assert_eq!(CText::new("").unwrap().bytes(), b"");
    assert_eq!(CText::from_bytes(&[0xff, 0xfe]).unwrap().bytes(), &[0xff, 0xfe]);
    assert!(CText::from_bytes(&[0xff, 0]).is_none());
}

#[test]
fn proc_status_edge_cases() {
    assert_eq!(parse_proc_status(""), Err(ProcStatusError::InvalidData));
    assert_eq!(parse_proc_status("Name:\tx\n"), Err(ProcStatusError::InvalidData));
    assert_eq!(parse_proc_status("Uid:\t1\n"), Err(ProcStatusError::InvalidData));
    assert_eq!(
        parse_proc_status("Name:\tx\nUid:\t-1\n"),
        Err(ProcStatusError::InvalidData)
    );
    assert_eq!(
        parse_proc_status("Name:\tx\nUid:\t4294967296\n"),
        Err(ProcStatusError::InvalidData)
    );
    assert_eq!(
        ProcStatusError::InvalidData.message(),
        "proc status missing Name or Uid"
    );
    // The last line may lack its newline, and lines may end in CR LF.
    let status = parse_proc_status("Uid: +7 8\r\nName:  two words \u{3000}").unwrap();
    assert_eq!(status.name, "two words");
    assert_eq!(status.uid, 7);
    // A later name replaces an earlier one as long as the UID is not known.
    let status = parse_proc_status("Name:a\nName:b\nUid:1\nName:c\n").unwrap();
    assert_eq!(status.name, "b");
    // An unusable UID is forgotten, a later one counts.
    let status = parse_proc_status("Name:a\nUid:x\nUid:4294967295\n").unwrap();
    assert_eq!(status.uid, u32::MAX);
}

#[test]
fn printed_status_files_are_read_back() {
    for (name, uid) in [("init", 0u32), ("a b", 1000), ("", u32::MAX)] {
        let printed = format!(
            "Name:\t{name}\nUmask:\t0022\nState:\tS (sleeping)\nUid:\t{uid}\t1\t2\t3\n"
        );
        for more in ["", "Gid:\t1\n", "Name:\tother\nUid:\t5\n", "Uid:"] {
            let status = parse_proc_status(&format!("{printed}{more}")).unwrap();
            assert_eq!((status.name.as_str(), status.uid), (name, uid));
        }
    }
}

#[test]
fn proc_paths() {
    assert_eq!(proc_dir(1), "/proc/1");
    assert_eq!(proc_dir(-12), "/proc/-12");
    assert_eq!(proc_dir(i32::MIN), "/proc/-2147483648");
    assert_eq!(proc_status_path(1234), "/proc/1234/status");
    assert_eq!(proc_cmdline_path(0), "/proc/0/cmdline");
}

#[test]
fn command_lines_become_readable() {
    assert_eq!(read_proc_cmdline(b"sh\0-c\0true\0\0"), "sh -c true");
    assert_eq!(read_proc_cmdline(b""), "");
    assert_eq!(read_proc_cmdline(b"\0\0"), "");
    assert_eq!(read_proc_cmdline(b"a\0\0b\0"), "a  b");
    assert_eq!(read_proc_cmdline(&[b'a', 0xc3, 0, b'b']), "a\u{fffd} b");
    assert_eq!(join_cmdline("x\0y\0"), "x y");
    assert!(!join_cmdline("\0a\0b\0\0").contains('\0'));
}

#[test]
fn path_probes() {
    assert!(path_exists("/tmp", 0));
    assert!(!path_exists("/tmp", -1));
    assert!(!path_exists("/t\0mp", 0));
    assert!(path_lstat_exists("/tmp", 0));
    assert!(!path_lstat_exists("/tmp", -1));
    assert!(!path_lstat_exists("\0", 0));
    // A dangling link is there, but does not exist.
    assert!(path_lstat_exists("/tmp/link", 0) && !path_exists("/tmp/link", -1));
}

#[test]
fn owners_of_paths() {
    assert_eq!(path_uid(b"/tmp", ok(), 1000).unwrap(), 1000);
    let e = path_uid(b"/tmp", failed(libc::ENOENT), 1000).unwrap_err();
    assert_eq!(e.message(), "stat failed (code=2)");
    let e = path_uid(b"/t\0mp", ok(), 1000).unwrap_err();
    assert_eq!(e.message(), "stat failed (code=22)");
    assert_eq!(proc_uid(1, ok(), 0).unwrap(), 0);
    assert_eq!(
        proc_uid(1, failed(libc::EACCES), 0).unwrap_err().raw_os_error(),
        Some(libc::EACCES)
    );
}

#[test]
fn readahead_requests() {
    let request = readahead(0, 4096).unwrap();
    assert_eq!((request.offset, request.count), (0, 4096));
    let request = readahead(i64::MAX as u64, usize::MAX).unwrap();
    assert_eq!((request.offset, request.count), (i64::MAX, u32::MAX as usize));
    let e = readahead(i64::MAX as u64 + 1, 1).unwrap_err();
    assert_eq!(e.raw_os_error(), Some(EINVAL));
    assert_eq!(e.message(), "readahead failed (code=22)");

    assert!(matches!(readahead_step(ok()), Step::Done(Ok(()))));
    assert!(matches!(readahead_step(failed(libc::EINTR)), Step::Retry));
    let e = readahead_step(failed(libc::EBADF));
    assert!(matches!(e, Step::Done(Err(ref e)) if e.raw_os_error() == Some(libc::EBADF)));
}

#[test]
fn signal_numbers_are_those_of_the_kernel() {
    assert_eq!(SIGINT, libc::SIGINT);
    assert_eq!(SIGTERM, libc::SIGTERM);
    assert_eq!(SIGKILL, libc::SIGKILL);
    assert_eq!(SIGPIPE, libc::SIGPIPE);
}

#[test]
fn policies_and_groups_have_defaults() {
    assert_eq!(CancelPolicy::default(), CancelPolicy::DoNothing);
    assert_eq!(ProcessGroup::default(), ProcessGroup::new(None, false));
    assert!(!ProcessGroup::default().is_group());
    assert!(ProcessGroup::new(Some(7), false).is_group());
    assert!(ProcessGroup::new(None, true).is_group());
}

#[test]
fn unblocking_signals() {
    assert!(SignalRuntime::unblock_all(ok()).is_ok());
    let e = SignalRuntime::unblock_all(failed(libc::EINVAL)).unwrap_err();
    assert_eq!(e.message(), "sigprocmask failed (code=22)");
}

#[test]
fn shutdown_flags_are_read() {
    let flag = AtomicBool::new(false);
    assert!(!shutdown_requested(&flag));
    flag.store(true, Ordering::Release);
    assert!(shutdown_requested(&flag));
}

#[test]
fn sigaction_errors_name_the_signal() {
    assert_eq!(sigaction_error(SIGINT, 22).message(), "sigaction(SIGINT) failed (code=22)");
    assert_eq!(sigaction_error(SIGTERM, 1).message(), "sigaction(SIGTERM) failed (code=1)");
    assert_eq!(sigaction_error(SIGKILL, 22).message(), "sigaction failed (code=22)");
}

#[test]
fn shutdown_flag_is_published_after_both_handlers() {
    let (mut install, action) = ShutdownInstall::start();
    assert_eq!(action, InstallAction::Handle(SIGINT));
    assert_eq!(install.step(ok()), InstallAction::Handle(SIGTERM));
    assert_eq!(install.step(ok()), InstallAction::Publish);
}

#[test]
fn failed_installation_is_undone() {
    let (mut install, _) = ShutdownInstall::start();
    assert_eq!(
        install.step(failed(1)),
        InstallAction::Fail { signal: SIGINT, code: 1 }
    );

    let (mut install, _) = ShutdownInstall::start();
    install.step(ok());
    assert_eq!(install.step(failed(2)), InstallAction::PutBack(SIGINT));
    assert_eq!(
        install.step(ok()),
        InstallAction::Fail { signal: SIGTERM, code: 2 }
    );

    let (mut install, _) = ShutdownInstall::start();
    install.step(ok());
    install.step(failed(2));
    assert_eq!(
        install.step(failed(3)),
        InstallAction::Fail { signal: SIGINT, code: 3 }
    );
}
