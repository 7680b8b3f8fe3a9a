//! Non-blocking input and output of a process.

pub mod buffer;
pub mod drain;
pub mod writer;

pub use buffer::{BufferState, ReadStep};
pub use drain::{DrainState, DrainStep, FdSlot, Stream};
pub use writer::{WriteStep, WriterState};
