//! Process spawning and lifecycle management.

pub mod child;
pub mod descriptors;
pub mod error;
pub mod options;
pub mod pipes;
pub mod plan;
pub mod process;
pub mod supervise;
pub mod watchdog;

pub use descriptors::{
    close_range_fast, close_ranges, closes_in_child, closes_in_fork, handled_fds,
};
pub use error::{
    errno, error_number, posix_ret, syscall_result, syscall_ret, Reply, Step, SysError, EAGAIN, EINTR, EINVAL,
    EPIPE, ESRCH, EWOULDBLOCK,
};
pub use options::{
    select_backend, spawn_start, Backend, Output, SpawnBackend, SpawnOptions, SpawnOptionsBuilder,
};
pub use pipes::{make_pipe, Pipes};
pub use plan::{
    child_plan, fork_side, posix_plan, standard_number, ChildStep, ForkSide, PosixOp, EXEC_FAILED,
    POSIX_SPAWN_SETPGROUP, POSIX_SPAWN_SETSIGDEF, POSIX_SPAWN_SETSIGMASK,
};
pub use process::{decode_status, ExitStatus, Process};
pub use supervise::{Action, Phase, RunningProcess, Supervisor, MAX_EVENTS};
pub use watchdog::{exit_timeout, poll_timeout, KillState, Tick, Watchdog, EXIT_POLL_MS};
