//! The decision core of a substrate for processes and I/O on Linux.
//!
//! It performs no system call. It says which calls to make and with what, and
//! takes their replies; whoever embeds it makes the calls. It is free of policy:
//! it provides the mechanisms (spawning, event delivery, file watches) of which
//! a policy is built.

pub mod inotify;
pub mod io;
pub mod reactor;
pub mod spawn;
pub mod sys;
pub mod text;
