//! Execution context, procfs, paths and signals.

pub mod ctext;
pub mod exec;
pub mod path;
pub mod procfs;
pub mod signal;

pub use ctext::CText;
pub use exec::{ExecArgv, ExecContext};
pub use path::{
    path_exists, path_lstat_exists, path_uid, proc_uid, readahead, readahead_step,
    readahead_syscall_number, ReadaheadRequest,
};
pub use procfs::{
    join_cmdline, parse_proc_status, proc_cmdline_path, proc_dir, proc_status_path,
    read_proc_cmdline, ProcStatus, ProcStatusError,
};
pub use signal::{
    shutdown_requested, sigaction_error, CancelPolicy, InstallAction, InstallPhase, ProcessGroup,
    ShutdownInstall, SignalRuntime, SIGINT, SIGKILL, SIGPIPE, SIGTERM,
};
