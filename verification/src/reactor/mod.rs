//! Readiness events and the tokens they carry.

pub mod fd;
pub mod poll;

pub use fd::Fd;
pub use poll::{Event, RawEvent, Reactor, Registration, Token};
