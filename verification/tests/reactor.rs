use coreshift_lowlevel::reactor::fd::FD_CLOEXEC;
use coreshift_lowlevel::reactor::poll::{EPOLLERR, EPOLLET, EPOLLHUP, EPOLLIN, EPOLLOUT};
use coreshift_lowlevel::reactor::{Event, Fd, RawEvent, Reactor, Token};
use coreshift_lowlevel::spawn::{Reply, Step, SysError};

fn reply(ret: isize, code: i32) -> Reply {
    Reply { ret, code }
}

fn reactor() -> Reactor {
    Reactor::new(reply(3, 0)).unwrap()
}

#[test]
fn test_reactor_wait_zero_events() {
    let reactor = Reactor::new(reply(3, 0)).unwrap();
    let mut events = Vec::new();
    let res = reactor.wait(&mut events, 0, &[], reply(0, 0));
    assert!(res.is_ok());
    assert_eq!(res.unwrap(), 0);
}

#[test]
fn flags_are_those_of_the_kernel() {
    assert_eq!(EPOLLIN, libc::EPOLLIN as u32);
    assert_eq!(EPOLLOUT, libc::EPOLLOUT as u32);
    assert_eq!(EPOLLERR, libc::EPOLLERR as u32);
    assert_eq!(EPOLLHUP, libc::EPOLLHUP as u32);
    assert_eq!(EPOLLET, libc::EPOLLET as u32);
    assert_eq!(FD_CLOEXEC, libc::FD_CLOEXEC);
}

#[test]
fn a_reactor_needs_a_descriptor() {
    let r = reactor();
    assert_eq!(r.fd(), 3);
    assert_eq!(r.next_token(), 1);
    assert!(r.sigchld_token.is_none());
    assert!(r.inotify_token.is_none());
    let e = Reactor::new(reply(-1, libc::EMFILE)).unwrap_err();
    assert_eq!(e.message(), "epoll_create1 failed (code=24)");
}

#[test]
fn registrations_get_fresh_tokens() {
    let mut r = reactor();
    let a = r.add(true, false);
    let b = r.add(false, true);
    let c = r.add(true, true);
    let d = r.add(false, false);
    assert_eq!([a.token.val(), b.token.val(), c.token.val(), d.token.val()], [1, 2, 3, 4]);
    assert_eq!(a.events, EPOLLET | EPOLLIN);
    assert_eq!(b.events, EPOLLET | EPOLLOUT);
    assert_eq!(c.events, EPOLLET | EPOLLIN | EPOLLOUT);
    assert_eq!(d.events, EPOLLET);
    assert_eq!(Reactor::add_with_token(a, reply(0, 0)).unwrap(), Token::new(1));
    let e = Reactor::add_with_token(b, reply(-1, libc::EPERM)).unwrap_err();
    assert_eq!(e.message(), "epoll_ctl_add failed (code=1)");
    assert_eq!(r.next_token(), 5);
}

#[test]
fn special_descriptors_are_remembered() {
    let mut r = reactor();
    let reg = r.add(true, false);
    assert!(r.setup_inotify(reg, reply(-1, 9)).is_err());
    assert!(r.inotify_token.is_none());
    r.setup_inotify(reg, reply(0, 0)).unwrap();
    assert_eq!(r.inotify_token, Some(Token::new(1)));
    let reg = r.add(true, false);
    assert!(r.setup_signalfd(reg, reply(-1, 9)).is_err());
    r.setup_signalfd(reg, reply(0, 0)).unwrap();
    assert_eq!(r.sigchld_token, Some(Token::new(2)));
    assert_eq!(r.inotify_token, Some(Token::new(1)));
    assert_eq!(r.sigchld_token(), Some(Token::new(2)));
    assert_eq!(r.inotify_token(), Some(Token::new(1)));
}

#[test]
fn special_descriptors_are_checked() {
    assert_eq!(Reactor::inotify_fd(7, 0).unwrap().raw(), 7);
    assert_eq!(
        Reactor::inotify_fd(-1, 24).unwrap_err().message(),
        "inotify_init1 failed (code=24)"
    );
    assert_eq!(Reactor::inotify_fd(-2, 24).unwrap_err().message(), "inotify failed (code=24)");
    assert_eq!(Reactor::signal_fd(8, 0).unwrap().raw(), 8);
    assert_eq!(Reactor::signal_fd(-1, 24).unwrap_err().message(), "signalfd failed (code=24)");
    assert!(Reactor::block_sigchld(reply(0, 0)).is_ok());
    assert_eq!(
        Reactor::block_sigchld(reply(-1, 22)).unwrap_err().message(),
        "sigprocmask failed (code=22)"
    );
}

#[test]
fn signals_are_drained_to_the_end() {
    assert!(Reactor::drain_signalfd(&Ok(Some(128)), 128));
    assert!(!Reactor::drain_signalfd(&Ok(Some(127)), 128));
    assert!(!Reactor::drain_signalfd(&Ok(None), 128));
    assert!(!Reactor::drain_signalfd(&Err(SysError::sys(5, "read")), 128));
}

#[test]
fn events_are_decoded() {
    let token = Token::new(9);
    let event = |events: u32| Event::decode(RawEvent { events, data: 9 });
    assert_eq!(
        event(EPOLLIN),
        Event { token, readable: true, writable: false, error: false }
    );
    assert_eq!(
        event(EPOLLOUT),
        Event { token, readable: false, writable: true, error: false }
    );
    assert_eq!(
        event(0),
        Event { token, readable: false, writable: false, error: false }
    );
    for trouble in [EPOLLERR, EPOLLHUP, EPOLLERR | EPOLLHUP | EPOLLIN] {
        assert_eq!(
            event(trouble),
            Event { token, readable: true, writable: true, error: true }
        );
    }
}

#[test]
fn waiting_appends_to_the_buffer() {
    let r = reactor();
    let ready = [
        RawEvent { events: EPOLLIN, data: 1 },
        RawEvent { events: EPOLLHUP, data: 2 },
    ];
    let mut events = Vec::new();
    assert_eq!(r.wait(&mut events, 64, &ready, reply(2, 0)).unwrap(), 2);
    assert_eq!(events.len(), 2);
    assert_eq!(events[1].token, Token::new(2));
    assert!(events[1].error);
    // What is there stays, and what comes is counted alone.
    assert_eq!(r.wait(&mut events, 64, &ready, reply(1, 0)).unwrap(), 1);
    let tokens: Vec<u64> = events.iter().map(|e| e.token.val()).collect();
    assert_eq!(tokens, vec![1, 2, 1]);
    assert_eq!(r.wait(&mut events, 64, &ready, reply(0, 0)).unwrap(), 0);
    assert_eq!(r.wait(&mut events, 0, &[], reply(0, 0)).unwrap(), 0);
    assert_eq!(r.wait(&mut events, 64, &ready, reply(-1, libc::EINTR)).unwrap(), 0);
    let e = r.wait(&mut events, 64, &ready, reply(-1, libc::EBADF)).unwrap_err();
    assert_eq!(e.message(), "epoll_wait failed (code=9)");
    assert_eq!(events.len(), 3);
}

#[test]
fn descriptors_are_not_negative() {
    assert_eq!(Fd::new(5, "open").unwrap().raw(), 5);
    assert_eq!(Fd::checked(0, 0, "open").unwrap().raw(), 0);
    let e = Fd::checked(-1, libc::ENOENT, "open").unwrap_err();
    assert_eq!(e.message(), "open failed (code=2)");
    // Reading a link that is not there leaves ENOENT behind.
    assert!(std::path::Path::new("/nonexistent/coreshift/link").read_link().is_err());
    let e = Fd::new(-1, "open").unwrap_err();
    assert_eq!(e.message(), "open failed (code=2)");
}

#[test]
fn transfers_are_judged_by_their_replies() {
    let fd = Fd::new(5, "open").unwrap();
    assert!(matches!(fd.read(reply(0, 0)), Step::Done(Ok(Some(0)))));
    assert!(matches!(fd.read(reply(17, 0)), Step::Done(Ok(Some(17)))));
    assert!(matches!(fd.read(reply(-1, libc::EINTR)), Step::Retry));
    assert!(matches!(fd.read(reply(-1, libc::EAGAIN)), Step::Done(Ok(None))));
    assert!(matches!(fd.read(reply(-1, libc::EWOULDBLOCK)), Step::Done(Ok(None))));
    assert!(
        matches!(fd.read(reply(-1, libc::EIO)), Step::Done(Err(ref e)) if e.message() == "read failed (code=5)")
    );
    assert!(matches!(fd.write(reply(3, 0)), Step::Done(Ok(Some(3)))));
    assert!(
        matches!(fd.write(reply(-1, libc::EPIPE)), Step::Done(Err(ref e)) if e.message() == "write failed (code=32)")
    );
}

#[test]
fn dup2_outcomes() {
    let fd = Fd::new(5, "open").unwrap();
    assert!(matches!(fd.dup2(reply(1, 0)), Step::Done(Ok(()))));
    assert!(matches!(fd.dup2(reply(-1, libc::EINTR)), Step::Retry));
    assert!(
        matches!(fd.dup2(reply(-1, libc::EBADF)), Step::Done(Err(ref e)) if e.message() == "dup2 failed (code=9)")
    );
}

#[test]
fn flags_are_added() {
    let fd = Fd::new(5, "open").unwrap();
    assert_eq!(
        fd.nonblock_flags(reply(2, 0), libc::O_NONBLOCK).unwrap(),
        2 | libc::O_NONBLOCK
    );
    assert_eq!(fd.nonblock_flags(reply(2, 0), 0x80).unwrap(), 0x82);
    assert_eq!(
        fd.nonblock_flags(reply(-1, 9), libc::O_NONBLOCK).unwrap_err().message(),
        "fcntl(F_GETFL) failed (code=9)"
    );
    assert!(fd.set_nonblock(reply(0, 0)).is_ok());
    assert_eq!(
        fd.set_nonblock(reply(-1, 9)).unwrap_err().message(),
        "fcntl(F_SETFL) failed (code=9)"
    );
    assert_eq!(fd.cloexec_flags(reply(0, 0)).unwrap(), libc::FD_CLOEXEC);
    assert_eq!(
        fd.cloexec_flags(reply(-1, 9)).unwrap_err().message(),
        "fcntl(F_GETFD) failed (code=9)"
    );
    assert!(fd.set_cloexec(reply(0, 0)).is_ok());
    assert_eq!(
        fd.set_cloexec(reply(-1, 9)).unwrap_err().message(),
        "fcntl(F_SETFD) failed (code=9)"
    );
}
