//! What to start, and with which backend.

use vstd::prelude::*;
use crate::spawn::error;
use crate::spawn::error::{SysError, EINVAL};
use crate::spawn::process::ExitStatus;
use crate::sys::exec;
use crate::sys::exec::ExecContext;
use crate::sys::signal::{CancelPolicy, ProcessGroup};
use crate::text;
use crate::text::parse_u32;

verus! {

/// The Android API level from which `posix_spawn` can be relied on.
pub const POSIX_SPAWN_API: u32 = 32;
/// The most bytes that a builder's options capture, unless told otherwise.
pub const DEFAULT_MAX_OUTPUT: usize = 1_048_576;
/// The grace period of a builder's options, in milliseconds.
pub const DEFAULT_KILL_GRACE_MS: u32 = 1000;

/// Advisory selection of the process spawning backend.
#[derive(Clone, Copy, Debug, PartialEq, Eq, Structural)]
pub enum SpawnBackend {
    /// Let the system choose the best backend (preferred).
    Auto,
    /// Force the use of `posix_spawn`.
    PosixSpawn,
    /// Force the use of `fork`/`exec`.
    Fork,
}

/// How a process is started.
#[derive(Clone, Copy, Debug, PartialEq, Eq, Structural)]
pub enum Backend {
    PosixSpawn,
    Fork,
}

/// Configuration options for spawning a new process.
#[derive(Debug, Clone)]
pub struct SpawnOptions<F> {
    /// Execution context (argv, env, cwd).
    pub ctx: ExecContext,
    /// Optional buffer to write to the child's stdin.
    pub stdin: Option<Box<[u8]>>,
    /// Capture the child's stdout.
    pub capture_stdout: bool,
    /// Capture the child's stderr.
    pub capture_stderr: bool,
    /// Wait for the process to terminate.
    pub wait: bool,
    /// Process group and isolation settings.
    pub pgroup: ProcessGroup,
    /// Maximum number of bytes to capture from the output streams.
    pub max_output: usize,
    /// Optional execution timeout in milliseconds.
    pub timeout_ms: Option<u32>,
    /// Grace period in milliseconds before `SIGKILL` after `SIGTERM`.
    pub kill_grace_ms: u32,
    /// Policy for handling process cancellation or timeout.
    pub cancel: CancelPolicy,
    /// Advisory selection of the spawning backend.
    pub backend: SpawnBackend,
    /// Optional closure called on each stdout chunk; `true` ends the reading.
    pub early_exit: Option<F>,
}

/// The result of a process execution.
#[derive(Debug)]
pub struct Output {
    /// The PID of the process.
    pub pid: i32,
    /// How it ended (`None` where no one waited for it).
    pub status: Option<ExitStatus>,
    /// What was captured of its stdout.
    pub stdout: Vec<u8>,
    /// What was captured of its stderr.
    pub stderr: Vec<u8>,
    /// Whether it ran into its timeout.
    pub timed_out: bool,
}

/// The backend that a platform calls for, given the value of its API level
/// property where it has one.
pub open spec fn platform_backend(sdk: Option<Seq<u8>>) -> Backend {
    match sdk {
        Some(value) => match text::u32_of(value) {
            Some(api) if api < POSIX_SPAWN_API => Backend::Fork,
            _ => Backend::PosixSpawn,
        },
        None => Backend::PosixSpawn,
    }
}

/// Selects the backend that the platform calls for: `fork` on Android below the
/// API level at which `posix_spawn` can be relied on.
pub fn select_backend(sdk: Option<&[u8]>) -> (r: Backend)
    ensures
        r == platform_backend(
            match sdk {
                Some(value) => Some(value@),
                None => None,
            },
        ),
{
    if let Some(value) = sdk {
        if let Some(api) = parse_u32(value) {
            if api < POSIX_SPAWN_API {
                return Backend::Fork;
            }
        }
    }
    Backend::PosixSpawn
}

impl<F> SpawnOptions<F> {
    /// Whether only `fork` can do what is asked: a new session, or another
    /// working directory.
    pub open spec fn needs_fork(self) -> bool {
        self.pgroup.isolated || self.ctx@.cwd is Some
    }

    /// Whether any of the standard streams is piped.
    pub open spec fn piped(self) -> bool {
        self.stdin is Some || self.capture_stdout || self.capture_stderr
    }

    /// The backend to use, given what the platform calls for.
    pub open spec fn chosen_backend(self, platform: Backend) -> Backend {
        if self.needs_fork() {
            Backend::Fork
        } else {
            match self.backend {
                SpawnBackend::Auto => platform,
                SpawnBackend::PosixSpawn => Backend::PosixSpawn,
                SpawnBackend::Fork => Backend::Fork,
            }
        }
    }

    /// Tells whether only `fork` can do what is asked.
    pub fn force_fork(&self) -> (r: bool)
        ensures
            r == self.needs_fork(),
    {
        self.pgroup.isolated || self.ctx.cwd().is_some()
    }

    /// Resolves the backend to use, given what the platform calls for.
    pub fn resolve_backend(&self, platform: Backend) -> (r: Backend)
        ensures
            r == self.chosen_backend(platform),
    {
        if self.force_fork() {
            return Backend::Fork;
        }
        match self.backend {
            SpawnBackend::Auto => platform,
            SpawnBackend::PosixSpawn => Backend::PosixSpawn,
            SpawnBackend::Fork => Backend::Fork,
        }
    }

    /// Options for running `argv`, to be built up.
    pub fn builder(argv: Vec<String>) -> (r: SpawnOptionsBuilder<F>)
        ensures
            r.argv == argv,
            !r.capture_stdout,
            r.max_output == DEFAULT_MAX_OUTPUT,
            r.timeout_ms is None,
            r.early_exit is None,
    {
        SpawnOptionsBuilder {
            argv,
            capture_stdout: false,
            max_output: DEFAULT_MAX_OUTPUT,
            timeout_ms: None,
            early_exit: None,
        }
    }
}

/// Decides how to start a process, given what the platform calls for.
///
/// # Errors
/// Where a stream is piped but no one will wait for the process: the capture of
/// background I/O is not supported.
pub fn spawn_start<F>(opts: &SpawnOptions<F>, platform: Backend) -> (r: Result<Backend, SysError>)
    ensures
        !opts.wait && opts.piped() ==> error::failed_with(
            r,
            EINVAL,
            "background I/O capture not supported (wait must be true)"@,
        ),
        opts.wait || !opts.piped() ==> r == Ok::<Backend, SysError>(opts.chosen_backend(platform)),
{
    if !opts.wait && (opts.stdin.is_some() || opts.capture_stdout || opts.capture_stderr) {
        return Err(
            SysError::sys(EINVAL, "background I/O capture not supported (wait must be true)"),
        );
    }
    Ok(opts.resolve_backend(platform))
}

/// Options that are being built up.
#[derive(Debug)]
pub struct SpawnOptionsBuilder<F> {
    pub argv: Vec<String>,
    pub capture_stdout: bool,
    pub max_output: usize,
    pub timeout_ms: Option<u32>,
    pub early_exit: Option<F>,
}

/// Whether `opts` are the built options for the given settings: everything that
/// a builder does not set is at its default, and the process is waited for.
pub open spec fn built<F>(opts: SpawnOptions<F>, b: SpawnOptionsBuilder<F>) -> bool {
    &&& opts.ctx@.argv == exec::encoded(b.argv@)
    &&& opts.ctx@.envp is None
    &&& opts.ctx@.cwd is None
    &&& opts.stdin is None
    &&& opts.capture_stdout == b.capture_stdout
    &&& !opts.capture_stderr
    &&& opts.wait
    &&& opts.pgroup == (ProcessGroup { leader: None, isolated: false })
    &&& opts.max_output == b.max_output
    &&& opts.timeout_ms == b.timeout_ms
    &&& opts.kill_grace_ms == DEFAULT_KILL_GRACE_MS
    &&& opts.cancel == CancelPolicy::DoNothing
    &&& opts.backend == SpawnBackend::Auto
    &&& opts.early_exit == b.early_exit
}

impl<F> SpawnOptionsBuilder<F> {
    /// Capture the child's stdout.
    pub fn capture_stdout(self) -> (r: Self)
        ensures
            r == (SpawnOptionsBuilder { capture_stdout: true, ..self }),
    {
        SpawnOptionsBuilder { capture_stdout: true, ..self }
    }

    /// Capture at most this many bytes.
    pub fn max_output(self, max_output: usize) -> (r: Self)
        ensures
            r == (SpawnOptionsBuilder { max_output, ..self }),
    {
        SpawnOptionsBuilder { max_output, ..self }
    }

    /// Time out after this many milliseconds.
    pub fn timeout_ms(self, timeout_ms: u32) -> (r: Self)
        ensures
            r == (SpawnOptionsBuilder { timeout_ms: Some(timeout_ms), ..self }),
    {
        SpawnOptionsBuilder { timeout_ms: Some(timeout_ms), ..self }
    }

    /// The options.
    ///
    /// # Errors
    /// Where there is no argument, or one that holds a NUL.
    pub fn build(self) -> (r: Result<SpawnOptions<F>, SysError>)
        ensures
            if self.argv@.len() == 0 {
                error::failed_with(r, EINVAL, "exec argv empty"@)
            } else if exec::any_nul(self.argv@) {
                error::failed_with(r, EINVAL, "exec argv contains nul"@)
            } else {
                r matches Ok(opts) && built(opts, self)
            },
    {
        let ctx = match ExecContext::new(self.argv, None, None) {
            Ok(ctx) => ctx,
            Err(e) => return Err(e),
        };
        Ok(
            SpawnOptions {
                ctx,
                stdin: None,
                capture_stdout: self.capture_stdout,
                capture_stderr: false,
                wait: true,
                pgroup: ProcessGroup::default(),
                max_output: self.max_output,
                timeout_ms: self.timeout_ms,
                kill_grace_ms: DEFAULT_KILL_GRACE_MS,
                cancel: CancelPolicy::default(),
                backend: SpawnBackend::Auto,
                early_exit: self.early_exit,
            },
        )
    }
}

/// What only `fork` can do is done by `fork`, whatever backend is asked for and
/// whatever the platform calls for.
pub proof fn law_isolation_forks<F>(opts: SpawnOptions<F>, platform: Backend)
    requires
        opts.pgroup.isolated || opts.ctx@.cwd is Some,
    ensures
        opts.chosen_backend(platform) == Backend::Fork,
{
}

/// The API level decides: below 32 a platform that gives one calls for `fork`,
/// and from 32 on, or where it gives no number, for `posix_spawn`.
pub proof fn law_api_level_decides(value: Seq<u8>)
    ensures
        text::u32_of(value) matches Some(api) ==> (platform_backend(Some(value)) == Backend::Fork
            <==> api <= 31),
        text::u32_of(value) is None ==> platform_backend(Some(value)) == Backend::PosixSpawn,
        platform_backend(None) == Backend::PosixSpawn,
{
}

/// What `posix_spawn` can do is done by the backend that is asked for, and by the
/// one that the platform calls for where the choice is left to it.
pub proof fn law_backend_is_as_asked<F>(opts: SpawnOptions<F>, platform: Backend)
    requires
        !opts.pgroup.isolated,
        opts.ctx@.cwd is None,
    ensures
        !opts.needs_fork(),
        opts.backend == SpawnBackend::Auto ==> opts.chosen_backend(platform) == platform,
        opts.backend == SpawnBackend::PosixSpawn ==> opts.chosen_backend(platform)
            == Backend::PosixSpawn,
        opts.backend == SpawnBackend::Fork ==> opts.chosen_backend(platform) == Backend::Fork,
{
}

/// What calls for `fork`, and what counts as piped: each of the settings alone is
/// enough, and without all of them it is not so.
pub proof fn law_each_setting_counts<F>(opts: SpawnOptions<F>)
    ensures
        opts.pgroup.isolated ==> opts.needs_fork(),
        opts.ctx@.cwd is Some ==> opts.needs_fork(),
        opts.stdin is Some ==> opts.piped(),
        opts.capture_stdout ==> opts.piped(),
        opts.capture_stderr ==> opts.piped(),
        opts.stdin is None && !opts.capture_stdout && !opts.capture_stderr ==> !opts.piped(),
{
}

/// Built options are waited for, capture no more than stdout, and give up nothing
/// of what was set; what was not set does nothing unasked.
pub proof fn law_built_options_are_as_set<F>(opts: SpawnOptions<F>, b: SpawnOptionsBuilder<F>)
    requires
        built(opts, b),
    ensures
        opts.ctx@.argv.len() == b.argv@.len(),
        opts.capture_stdout == b.capture_stdout,
        opts.max_output == b.max_output,
        opts.timeout_ms == b.timeout_ms,
        opts.early_exit == b.early_exit,
        opts.wait,
        opts.piped() <==> b.capture_stdout,
        opts.stdin is None && !opts.capture_stderr,
        opts.kill_grace_ms == 1000,
        opts.cancel == CancelPolicy::DoNothing,
        opts.pgroup.leader is None && !opts.pgroup.isolated,
        opts.chosen_backend(Backend::Fork) == Backend::Fork,
        opts.chosen_backend(Backend::PosixSpawn) == Backend::PosixSpawn,
{
}

/// A process whose streams are piped can be started only where it is waited for,
/// and everything else can be: without pipes it is started whether it is waited
/// for or not. The refusal is of an invalid argument (22).
pub proof fn law_piped_processes_are_waited_for<F>(
    opts: &SpawnOptions<F>,
    platform: Backend,
    r: Result<Backend, SysError>,
)
    requires
        call_ensures(spawn_start::<F>, (opts, platform), r),
    ensures
        r is Err <==> !opts.wait && (opts.stdin is Some || opts.capture_stdout
            || opts.capture_stderr),
        r matches Err(e) ==> e->code == 22,
        r matches Ok(backend) ==> (opts.pgroup.isolated || opts.ctx@.cwd is Some ==> backend
            == Backend::Fork),
        r matches Ok(backend) ==> (!opts.pgroup.isolated && opts.ctx@.cwd is None && opts.backend
            == SpawnBackend::Auto ==> backend == platform),
{
}

/// A builder starts with nothing captured, without a timeout and with a limit of
/// a mebibyte; each setting changes what it is about and nothing else.
pub proof fn law_settings_change_what_they_are_about<F>(
    argv: Vec<String>,
    max: usize,
    ms: u32,
    b: SpawnOptionsBuilder<F>,
    captured: SpawnOptionsBuilder<F>,
    limited: SpawnOptionsBuilder<F>,
    timed: SpawnOptionsBuilder<F>,
)
    requires
        call_ensures(SpawnOptions::<F>::builder, (argv,), b),
        call_ensures(SpawnOptionsBuilder::<F>::capture_stdout, (b,), captured),
        call_ensures(SpawnOptionsBuilder::<F>::max_output, (captured, max), limited),
        call_ensures(SpawnOptionsBuilder::<F>::timeout_ms, (limited, ms), timed),
    ensures
        b.argv == argv && !b.capture_stdout && b.max_output == 1024 * 1024 && b.timeout_ms is None
            && b.early_exit is None,
        captured.capture_stdout && captured.max_output == b.max_output && captured.timeout_ms is None,
        limited.max_output == max && limited.capture_stdout && limited.timeout_ms is None,
        timed.timeout_ms == Some(ms) && timed.max_output == max && timed.capture_stdout,
        timed.argv == argv && timed.early_exit is None,
{
}

} // verus!
