//! What it takes to start a process, step by step.
//!
//! Each backend follows a plan that is made before the process exists.

use vstd::prelude::*;
use crate::io::drain::Stream;
use crate::spawn::error;
use crate::spawn::error::{posix_ret, SysError};
use crate::spawn::pipes::Pipes;
use crate::sys::signal::{ProcessGroup, SIGPIPE};

verus! {

/// Flag: put the child into a process group.
pub const POSIX_SPAWN_SETPGROUP: i32 = 2;
/// Flag: give signals their default handling in the child.
pub const POSIX_SPAWN_SETSIGDEF: i32 = 4;
/// Flag: set the signal mask of the child.
pub const POSIX_SPAWN_SETSIGMASK: i32 = 8;
/// How a child exits that cannot run its program.
pub const EXEC_FAILED: i32 = 127;

/// One step of starting a process by `posix_spawn`.
#[derive(Clone, Copy, Debug, PartialEq, Eq, Structural)]
pub enum PosixOp {
    /// Make the list of file actions.
    InitActions,
    /// Let the child's standard stream be the child's end of its pipe.
    Dup2 {
        stream: Stream,
        fd: i32,
    },
    /// Let the child close its end under the old number.
    CloseChildEnd {
        stream: Stream,
        fd: i32,
    },
    /// Let the child close the parent's end.
    CloseParentEnd {
        stream: Stream,
        fd: i32,
    },
    /// Let the child close what else `/proc/self/fd` lists.
    CloseListed,
    /// Make the attributes.
    InitAttributes,
    /// Set the process group to join.
    JoinGroup(i32),
    /// Set which attributes count.
    SetFlags(i32),
    /// Let the child block no signal.
    BlockNoSignal,
    /// Let the child handle the signal by default.
    DefaultSignal(i32),
    /// Start the process.
    Spawn,
}

/// The number of a standard stream.
pub open spec fn standard_fd(stream: Stream) -> i32 {
    match stream {
        Stream::Stdin => 0,
        Stream::Stdout => 1,
        Stream::Stderr => 2,
    }
}

/// The number of a standard stream.
pub fn standard_number(stream: Stream) -> (r: i32)
    ensures
        r == standard_fd(stream),
{
    match stream {
        Stream::Stdin => 0,
        Stream::Stdout => 1,
        Stream::Stderr => 2,
    }
}

/// The child's end of a stream's pipe and the parent's, where there is a pipe.
pub open spec fn pipe_sides(p: Pipes<i32>, stream: Stream) -> Option<(i32, i32)> {
    match p.pipe(stream) {
        (Some(r), Some(w)) => Some(
            if stream == Stream::Stdin {
                (r, w)
            } else {
                (w, r)
            },
        ),
        _ => None,
    }
}

/// The steps for one stream: the child's end takes the stream's place, and both
/// ends are closed.
pub open spec fn stream_ops(p: Pipes<i32>, stream: Stream) -> Seq<PosixOp> {
    match pipe_sides(p, stream) {
        Some((child, parent)) => seq![
            PosixOp::Dup2 { stream, fd: child },
            PosixOp::CloseChildEnd { stream, fd: child },
            PosixOp::CloseParentEnd { stream, fd: parent },
        ],
        None => seq![],
    }
}

/// The step that sets the process group, where one is to be joined.
pub open spec fn group_ops(leader: Option<i32>) -> Seq<PosixOp> {
    match leader {
        Some(pg) => seq![PosixOp::JoinGroup(pg)],
        None => seq![],
    }
}

/// Which attributes count.
pub open spec fn spawn_flags(leader: Option<i32>) -> i32 {
    if leader is Some {
        POSIX_SPAWN_SETPGROUP | (POSIX_SPAWN_SETSIGMASK | POSIX_SPAWN_SETSIGDEF)
    } else {
        POSIX_SPAWN_SETSIGMASK | POSIX_SPAWN_SETSIGDEF
    }
}

/// All steps of starting a process by `posix_spawn`.
pub open spec fn posix_steps(p: Pipes<i32>, leader: Option<i32>) -> Seq<PosixOp> {
    seq![PosixOp::InitActions] + stream_ops(p, Stream::Stdin) + stream_ops(p, Stream::Stdout)
        + stream_ops(p, Stream::Stderr) + seq![PosixOp::CloseListed, PosixOp::InitAttributes]
        + group_ops(leader) + seq![
        PosixOp::SetFlags(spawn_flags(leader)),
        PosixOp::BlockNoSignal,
        PosixOp::DefaultSignal(SIGPIPE),
        PosixOp::Spawn,
    ]
}

/// Appends the steps for one stream.
fn push_stream(ops: &mut Vec<PosixOp>, p: &Pipes<i32>, stream: Stream)
    ensures
        final(ops)@ == old(ops)@ + stream_ops(*p, stream),
{
    let (child, parent) = match stream {
        Stream::Stdin => (p.stdin_r, p.stdin_w),
        Stream::Stdout => (p.stdout_w, p.stdout_r),
        Stream::Stderr => (p.stderr_w, p.stderr_r),
    };
    if let (Some(child), Some(parent)) = (child, parent) {
        ops.push(PosixOp::Dup2 { stream, fd: child });
        ops.push(PosixOp::CloseChildEnd { stream, fd: child });
        ops.push(PosixOp::CloseParentEnd { stream, fd: parent });
    }
    assert(ops@ =~= old(ops)@ + stream_ops(*p, stream));
}

/// Plans the start of a process by `posix_spawn`, given the numbers of the pipe
/// ends and the process group to join.
#[verifier::spinoff_prover]
#[verifier::rlimit(30)]
pub fn posix_plan(p: &Pipes<i32>, leader: Option<i32>) -> (r: Vec<PosixOp>)
    ensures
        r@ == posix_steps(*p, leader),
{
    let mut ops: Vec<PosixOp> = Vec::new();
    ops.push(PosixOp::InitActions);
    push_stream(&mut ops, p, Stream::Stdin);
    push_stream(&mut ops, p, Stream::Stdout);
    push_stream(&mut ops, p, Stream::Stderr);
    ops.push(PosixOp::CloseListed);
    ops.push(PosixOp::InitAttributes);
    let mut flags: i32 = POSIX_SPAWN_SETSIGMASK | POSIX_SPAWN_SETSIGDEF;
    if let Some(pg) = leader {
        ops.push(PosixOp::JoinGroup(pg));
        flags = POSIX_SPAWN_SETPGROUP | flags;
    }
    ops.push(PosixOp::SetFlags(flags));
    ops.push(PosixOp::BlockNoSignal);
    ops.push(PosixOp::DefaultSignal(SIGPIPE));
    ops.push(PosixOp::Spawn);
    assert(ops@ =~= posix_steps(*p, leader));
    ops
}

/// The name of the operation that a step is, where its failure counts.
pub open spec fn op_name(op: PosixOp) -> Option<Seq<char>> {
    match op {
        PosixOp::InitActions => Some("file_actions_init"@),
        PosixOp::Dup2 { stream: Stream::Stdin, .. } => Some("dup2 stdin"@),
        PosixOp::Dup2 { stream: Stream::Stdout, .. } => Some("dup2 stdout"@),
        PosixOp::Dup2 { stream: Stream::Stderr, .. } => Some("dup2 stderr"@),
        PosixOp::CloseChildEnd { stream: Stream::Stdin, .. } => Some("close stdin pipe"@),
        PosixOp::CloseChildEnd { stream: Stream::Stdout, .. } => Some("close stdout pipe"@),
        PosixOp::CloseChildEnd { stream: Stream::Stderr, .. } => Some("close stderr pipe"@),
        PosixOp::CloseParentEnd { stream: Stream::Stdin, .. } => Some("close stdin write pipe"@),
        PosixOp::CloseParentEnd { stream: Stream::Stdout, .. } => Some("close stdout read pipe"@),
        PosixOp::CloseParentEnd { stream: Stream::Stderr, .. } => Some("close stderr read pipe"@),
        PosixOp::CloseListed => None,
        PosixOp::InitAttributes => Some("attr_init"@),
        PosixOp::JoinGroup(_) => Some("setpgroup"@),
        PosixOp::SetFlags(_) => Some("setflags"@),
        PosixOp::BlockNoSignal => Some("setsigmask"@),
        PosixOp::DefaultSignal(_) => Some("setsigdefault"@),
        PosixOp::Spawn => Some("posix_spawn"@),
    }
}

impl PosixOp {
    /// What the step came to, given the number that its call returned. Whatever
    /// closing the listed descriptors returns is of no account.
    pub fn outcome(&self, ret: i32) -> (r: Result<(), SysError>)
        ensures
            ret == 0 || op_name(*self) is None ==> r is Ok,
            ret != 0 && op_name(*self) is Some ==> error::failed_with(r, ret, op_name(*self)->0),
    {
        let op: &str = match *self {
            PosixOp::InitActions => "file_actions_init",
            PosixOp::Dup2 { stream: Stream::Stdin, .. } => "dup2 stdin",
            PosixOp::Dup2 { stream: Stream::Stdout, .. } => "dup2 stdout",
            PosixOp::Dup2 { stream: Stream::Stderr, .. } => "dup2 stderr",
            PosixOp::CloseChildEnd { stream: Stream::Stdin, .. } => "close stdin pipe",
            PosixOp::CloseChildEnd { stream: Stream::Stdout, .. } => "close stdout pipe",
            PosixOp::CloseChildEnd { stream: Stream::Stderr, .. } => "close stderr pipe",
            PosixOp::CloseParentEnd { stream: Stream::Stdin, .. } => "close stdin write pipe",
            PosixOp::CloseParentEnd { stream: Stream::Stdout, .. } => "close stdout read pipe",
            PosixOp::CloseParentEnd { stream: Stream::Stderr, .. } => "close stderr read pipe",
            PosixOp::CloseListed => return Ok(()),
            PosixOp::InitAttributes => "attr_init",
            PosixOp::JoinGroup(_) => "setpgroup",
            PosixOp::SetFlags(_) => "setflags",
            PosixOp::BlockNoSignal => "setsigmask",
            PosixOp::DefaultSignal(_) => "setsigdefault",
            PosixOp::Spawn => "posix_spawn",
        };
        posix_ret(ret, op)
    }
}

/// On which side of a fork a process finds itself.
#[derive(Clone, Copy, Debug, PartialEq, Eq, Structural)]
pub enum ForkSide {
    /// It is the new process.
    Child,
    /// It is the old one, and this is the new one's ID.
    Parent(i32),
}

/// What forking came to, given what the call returned and the error number
/// after it.
pub fn fork_side(pid: i32, code: i32) -> (r: Result<ForkSide, SysError>)
    ensures
        pid < 0 ==> error::failed_with(r, code, "fork"@),
        pid == 0 ==> r == Ok::<ForkSide, SysError>(ForkSide::Child),
        pid > 0 ==> r == Ok::<ForkSide, SysError>(ForkSide::Parent(pid)),
{
    if pid < 0 {
        return Err(SysError::sys(code, "fork"));
    }
    if pid == 0 {
        Ok(ForkSide::Child)
    } else {
        Ok(ForkSide::Parent(pid))
    }
}

/// One step of a forked child on the way to its program.
#[derive(Clone, Copy, Debug, PartialEq, Eq, Structural)]
pub enum ChildStep {
    /// Let the standard stream be the child's end of its pipe.
    Dup2 {
        stream: Stream,
        fd: i32,
    },
    /// Close every descriptor but the standard streams.
    CloseOthers,
    /// Create a new session.
    NewSession,
    /// Enter the working directory.
    ChangeDir,
    /// Join the process group.
    JoinGroup(i32),
    /// Block no signal.
    UnblockSignals,
    /// Handle the signal by default.
    ResetSignal(i32),
    /// Run the program.
    Exec,
}

/// The step for one stream: the child's end takes the stream's place, unless it
/// has it already.
pub open spec fn stream_steps(p: Pipes<i32>, stream: Stream) -> Seq<ChildStep> {
    match pipe_sides(p, stream) {
        Some((child, _)) if child != standard_fd(stream) => seq![
            ChildStep::Dup2 { stream, fd: child },
        ],
        _ => seq![],
    }
}

/// `step`, where it is called for.
pub open spec fn step_if(called_for: bool, step: ChildStep) -> Seq<ChildStep> {
    if called_for {
        seq![step]
    } else {
        seq![]
    }
}

/// All steps of a forked child.
pub open spec fn child_steps(p: Pipes<i32>, group: ProcessGroup, cwd: bool) -> Seq<ChildStep> {
    stream_steps(p, Stream::Stdin) + stream_steps(p, Stream::Stdout) + stream_steps(
        p,
        Stream::Stderr,
    ) + seq![ChildStep::CloseOthers] + step_if(group.isolated, ChildStep::NewSession) + step_if(
        cwd,
        ChildStep::ChangeDir,
    ) + step_if(group.leader is Some, ChildStep::JoinGroup(group.leader->0)) + seq![
        ChildStep::UnblockSignals,
        ChildStep::ResetSignal(SIGPIPE),
        ChildStep::Exec,
    ]
}

/// Appends the step for one stream.
fn push_dup2(steps: &mut Vec<ChildStep>, p: &Pipes<i32>, stream: Stream)
    ensures
        final(steps)@ == old(steps)@ + stream_steps(*p, stream),
{
    let (child, parent) = match stream {
        Stream::Stdin => (p.stdin_r, p.stdin_w),
        Stream::Stdout => (p.stdout_w, p.stdout_r),
        Stream::Stderr => (p.stderr_w, p.stderr_r),
    };
    if let (Some(child), Some(_)) = (child, parent) {
        if child != standard_number(stream) {
            steps.push(ChildStep::Dup2 { stream, fd: child });
        }
    }
    assert(steps@ =~= old(steps)@ + stream_steps(*p, stream));
}

/// Plans what a forked child does, given the numbers of the pipe ends, its
/// process group and whether it is to enter a directory.
#[verifier::spinoff_prover]
#[verifier::rlimit(30)]
pub fn child_plan(p: &Pipes<i32>, group: ProcessGroup, cwd: bool) -> (r: Vec<ChildStep>)
    ensures
        r@ == child_steps(*p, group, cwd),
{
    let mut steps: Vec<ChildStep> = Vec::new();
    push_dup2(&mut steps, p, Stream::Stdin);
    push_dup2(&mut steps, p, Stream::Stdout);
    push_dup2(&mut steps, p, Stream::Stderr);
    steps.push(ChildStep::CloseOthers);
    if group.isolated {
        steps.push(ChildStep::NewSession);
    }
    if cwd {
        steps.push(ChildStep::ChangeDir);
    }
    if let Some(pg) = group.leader {
        steps.push(ChildStep::JoinGroup(pg));
    }
    steps.push(ChildStep::UnblockSignals);
    steps.push(ChildStep::ResetSignal(SIGPIPE));
    steps.push(ChildStep::Exec);
    assert(steps@ =~= child_steps(*p, group, cwd));
    steps
}

impl ChildStep {
    /// How the child exits after the step, where it does, given what the step's
    /// call returned: it does not go on in the wrong directory, nor past running
    /// its program, which returns only where it fails.
    pub fn exit_code(&self, ret: i32) -> (r: Option<i32>)
        ensures
            r == (match *self {
                ChildStep::ChangeDir if ret != 0 => Some(EXEC_FAILED),
                ChildStep::Exec => Some(EXEC_FAILED),
                _ => None,
            }),
    {
        match *self {
            ChildStep::ChangeDir => {
                if ret != 0 {
                    Some(EXEC_FAILED)
                } else {
                    None
                }
            },
            ChildStep::Exec => Some(EXEC_FAILED),
            _ => None,
        }
    }
}

/// The child reads its stdin and writes its stdout and stderr, and the parent has
/// the other end of each; a pipe that lacks an end counts as none.
pub proof fn law_sides_of_the_pipes(p: Pipes<i32>)
    ensures
        pipe_sides(p, Stream::Stdin) == (if p.stdin_r is Some && p.stdin_w is Some {
            Some((p.stdin_r->0, p.stdin_w->0))
        } else {
            None
        }),
        pipe_sides(p, Stream::Stdout) == (if p.stdout_r is Some && p.stdout_w is Some {
            Some((p.stdout_w->0, p.stdout_r->0))
        } else {
            None
        }),
        pipe_sides(p, Stream::Stderr) == (if p.stderr_r is Some && p.stderr_w is Some {
            Some((p.stderr_w->0, p.stderr_r->0))
        } else {
            None
        }),
        standard_fd(Stream::Stdin) == 0,
        standard_fd(Stream::Stdout) == 1,
        standard_fd(Stream::Stderr) == 2,
{
}

/// Whether the stream has a pipe whose end on the child's side is `fd`.
pub open spec fn is_childs(p: Pipes<i32>, stream: Stream, fd: i32) -> bool {
    match stream {
        Stream::Stdin => p.stdin_r == Some(fd) && p.stdin_w is Some,
        Stream::Stdout => p.stdout_w == Some(fd) && p.stdout_r is Some,
        Stream::Stderr => p.stderr_w == Some(fd) && p.stderr_r is Some,
    }
}

/// Whether the stream has a pipe whose end on the parent's side is `fd`.
pub open spec fn is_parents(p: Pipes<i32>, stream: Stream, fd: i32) -> bool {
    match stream {
        Stream::Stdin => p.stdin_w == Some(fd) && p.stdin_r is Some,
        Stream::Stdout => p.stdout_r == Some(fd) && p.stdout_w is Some,
        Stream::Stderr => p.stderr_r == Some(fd) && p.stderr_w is Some,
    }
}

/// Whether a start by `posix_spawn` takes the step at all.
pub open spec fn takes_op(p: Pipes<i32>, leader: Option<i32>, op: PosixOp) -> bool {
    match op {
        PosixOp::Dup2 { stream, fd } => is_childs(p, stream, fd),
        PosixOp::CloseChildEnd { stream, fd } => is_childs(p, stream, fd),
        PosixOp::CloseParentEnd { stream, fd } => is_parents(p, stream, fd),
        PosixOp::JoinGroup(group) => leader == Some(group),
        PosixOp::SetFlags(flags) => flags == if leader is Some {
            14i32
        } else {
            12i32
        },
        PosixOp::DefaultSignal(signal) => signal == 13,
        _ => true,
    }
}

/// When a step is taken: a step with a smaller number comes first.
pub open spec fn turn_of_op(op: PosixOp) -> int {
    match op {
        PosixOp::InitActions => 0,
        PosixOp::Dup2 { stream: Stream::Stdin, .. } => 1,
        PosixOp::CloseChildEnd { stream: Stream::Stdin, .. } => 2,
        PosixOp::CloseParentEnd { stream: Stream::Stdin, .. } => 3,
        PosixOp::Dup2 { stream: Stream::Stdout, .. } => 4,
        PosixOp::CloseChildEnd { stream: Stream::Stdout, .. } => 5,
        PosixOp::CloseParentEnd { stream: Stream::Stdout, .. } => 6,
        PosixOp::Dup2 { stream: Stream::Stderr, .. } => 7,
        PosixOp::CloseChildEnd { stream: Stream::Stderr, .. } => 8,
        PosixOp::CloseParentEnd { stream: Stream::Stderr, .. } => 9,
        PosixOp::CloseListed => 10,
        PosixOp::InitAttributes => 11,
        PosixOp::JoinGroup(_) => 12,
        PosixOp::SetFlags(_) => 13,
        PosixOp::BlockNoSignal => 14,
        PosixOp::DefaultSignal(_) => 15,
        PosixOp::Spawn => 16,
    }
}

/// A start by `posix_spawn` takes exactly the steps that are called for, each
/// once and in its turn: every pipe's end on the child's side is put in its place,
/// and both ends are closed; the group is joined where there is one; no signal is
/// blocked, and SIGPIPE (13) is handled by default.
#[verifier::spinoff_prover]
#[verifier::rlimit(30)]
pub proof fn law_posix_plan_is_complete(
    p: Pipes<i32>,
    leader: Option<i32>,
    op: PosixOp,
    i: int,
    j: int,
)
    ensures
        posix_steps(p, leader).contains(op) <==> takes_op(p, leader, op),
        0 <= i < j < posix_steps(p, leader).len() ==> turn_of_op(posix_steps(p, leader)[i])
            < turn_of_op(posix_steps(p, leader)[j]),
{
    let steps = posix_steps(p, leader);
    assert forall|k: int| 0 <= k < steps.len() implies takes_op(p, leader, #[trigger] steps[k]) by {
        lemma_place_of_op(p, leader, k);
        lemma_op_is_taken(p, leader, k);
    }
    if takes_op(p, leader, op) {
        let k = place_of_op(p, leader, op);
        lemma_taken_op(p, leader, op);
        lemma_place_of_op(p, leader, k);
        assert(steps[k] == op);
    }
    if 0 <= i < j < steps.len() {
        lemma_place_of_op(p, leader, i);
        lemma_place_of_op(p, leader, j);
        lemma_ops_in_turn(p, leader, i, j);
    }
}

/// How many steps there are.
spec fn count_of_ops(p: Pipes<i32>, leader: Option<i32>) -> nat {
    7 + stream_ops(p, Stream::Stdin).len() + stream_ops(p, Stream::Stdout).len() + stream_ops(
        p,
        Stream::Stderr,
    ).len() + group_ops(leader).len()
}

/// The step that stands at `k`.
spec fn op_at(p: Pipes<i32>, leader: Option<i32>, k: int) -> PosixOp {
    let a = 1 + stream_ops(p, Stream::Stdin).len();
    let b = a + stream_ops(p, Stream::Stdout).len();
    let c = b + stream_ops(p, Stream::Stderr).len();
    let d = c + 2 + group_ops(leader).len();
    if k < 1 {
        PosixOp::InitActions
    } else if k < a {
        stream_ops(p, Stream::Stdin)[k - 1]
    } else if k < b {
        stream_ops(p, Stream::Stdout)[k - a]
    } else if k < c {
        stream_ops(p, Stream::Stderr)[k - b]
    } else if k == c {
        PosixOp::CloseListed
    } else if k == c + 1 {
        PosixOp::InitAttributes
    } else if k < d {
        group_ops(leader)[k - c - 2]
    } else if k == d {
        PosixOp::SetFlags(spawn_flags(leader))
    } else if k == d + 1 {
        PosixOp::BlockNoSignal
    } else if k == d + 2 {
        PosixOp::DefaultSignal(SIGPIPE)
    } else {
        PosixOp::Spawn
    }
}

/// Where a step stands.
spec fn place_of_op(p: Pipes<i32>, leader: Option<i32>, op: PosixOp) -> int {
    let a = 1 + stream_ops(p, Stream::Stdin).len() as int;
    let b = a + stream_ops(p, Stream::Stdout).len();
    let c = b + stream_ops(p, Stream::Stderr).len();
    let d = c + 2 + group_ops(leader).len();
    match op {
        PosixOp::InitActions => 0,
        PosixOp::Dup2 { stream: Stream::Stdin, .. } => 1,
        PosixOp::CloseChildEnd { stream: Stream::Stdin, .. } => 2,
        PosixOp::CloseParentEnd { stream: Stream::Stdin, .. } => 3,
        PosixOp::Dup2 { stream: Stream::Stdout, .. } => a,
        PosixOp::CloseChildEnd { stream: Stream::Stdout, .. } => a + 1,
        PosixOp::CloseParentEnd { stream: Stream::Stdout, .. } => a + 2,
        PosixOp::Dup2 { stream: Stream::Stderr, .. } => b,
        PosixOp::CloseChildEnd { stream: Stream::Stderr, .. } => b + 1,
        PosixOp::CloseParentEnd { stream: Stream::Stderr, .. } => b + 2,
        PosixOp::CloseListed => c,
        PosixOp::InitAttributes => c + 1,
        PosixOp::JoinGroup(_) => c + 2,
        PosixOp::SetFlags(_) => d,
        PosixOp::BlockNoSignal => d + 1,
        PosixOp::DefaultSignal(_) => d + 2,
        PosixOp::Spawn => d + 3,
    }
}

/// The steps stand where they should.
#[verifier::spinoff_prover]
#[verifier::rlimit(30)]
proof fn lemma_place_of_op(p: Pipes<i32>, leader: Option<i32>, k: int)
    ensures
        posix_steps(p, leader).len() == count_of_ops(p, leader),
        0 <= k < count_of_ops(p, leader) ==> posix_steps(p, leader)[k] == op_at(p, leader, k),
{
}

/// Which attributes count, as a number.
proof fn lemma_flags(leader: Option<i32>)
    ensures
        spawn_flags(leader) == if leader is Some {
            14i32
        } else {
            12i32
        },
{
    assert(2i32 | (8i32 | 4i32) == 14i32) by (bit_vector);
    assert(8i32 | 4i32 == 12i32) by (bit_vector);
}

/// What stands in its place is called for.
#[verifier::spinoff_prover]
#[verifier::rlimit(30)]
proof fn lemma_op_is_taken(p: Pipes<i32>, leader: Option<i32>, k: int)
    requires
        0 <= k < count_of_ops(p, leader),
    ensures
        takes_op(p, leader, op_at(p, leader, k)),
{
    lemma_flags(leader);
}

/// What is called for stands in its place.
#[verifier::spinoff_prover]
#[verifier::rlimit(30)]
proof fn lemma_taken_op(p: Pipes<i32>, leader: Option<i32>, op: PosixOp)
    requires
        takes_op(p, leader, op),
    ensures
        0 <= place_of_op(p, leader, op) < count_of_ops(p, leader),
        op_at(p, leader, place_of_op(p, leader, op)) == op,
{
    lemma_flags(leader);
}

/// The turn of the step that stands at `k`.
#[verifier::spinoff_prover]
#[verifier::rlimit(30)]
proof fn lemma_turn_at(p: Pipes<i32>, leader: Option<i32>, k: int)
    requires
        0 <= k < count_of_ops(p, leader),
    ensures
        ({
            let a = 1 + stream_ops(p, Stream::Stdin).len();
            let b = a + stream_ops(p, Stream::Stdout).len();
            let c = b + stream_ops(p, Stream::Stderr).len();
            let d = c + 2 + group_ops(leader).len();
            &&& a == 1 || a == 4
            &&& b == a || b == a + 3
            &&& c == b || c == b + 3
            &&& d == c + 2 || d == c + 3
            &&& turn_of_op(op_at(p, leader, k)) == if k < a {
                k
            } else if k < b {
                4 + k - a
            } else if k < c {
                7 + k - b
            } else if k < d {
                10 + k - c
            } else {
                13 + k - d
            }
        }),
{
}

/// The steps stand in their turn.
proof fn lemma_ops_in_turn(p: Pipes<i32>, leader: Option<i32>, i: int, j: int)
    requires
        0 <= i < j < count_of_ops(p, leader),
    ensures
        turn_of_op(op_at(p, leader, i)) < turn_of_op(op_at(p, leader, j)),
{
    lemma_turn_at(p, leader, i);
    lemma_turn_at(p, leader, j);
    let before = op_at(p, leader, i);
    let after = op_at(p, leader, j);
    assert(turn_of_op(before) < turn_of_op(after));
}

/// Whether a forked child takes the step at all.
pub open spec fn takes_step(p: Pipes<i32>, group: ProcessGroup, cwd: bool, step: ChildStep) -> bool {
    match step {
        ChildStep::Dup2 { stream: Stream::Stdin, fd } => is_childs(p, Stream::Stdin, fd) && fd != 0,
        ChildStep::Dup2 { stream: Stream::Stdout, fd } => is_childs(p, Stream::Stdout, fd) && fd
            != 1,
        ChildStep::Dup2 { stream: Stream::Stderr, fd } => is_childs(p, Stream::Stderr, fd) && fd
            != 2,
        ChildStep::NewSession => group.isolated,
        ChildStep::ChangeDir => cwd,
        ChildStep::JoinGroup(leader) => group.leader == Some(leader),
        ChildStep::ResetSignal(signal) => signal == 13,
        _ => true,
    }
}

/// When a forked child takes a step: one with a smaller number comes first.
pub open spec fn turn_of_step(step: ChildStep) -> int {
    match step {
        ChildStep::Dup2 { stream: Stream::Stdin, .. } => 0,
        ChildStep::Dup2 { stream: Stream::Stdout, .. } => 1,
        ChildStep::Dup2 { stream: Stream::Stderr, .. } => 2,
        ChildStep::CloseOthers => 3,
        ChildStep::NewSession => 4,
        ChildStep::ChangeDir => 5,
        ChildStep::JoinGroup(_) => 6,
        ChildStep::UnblockSignals => 7,
        ChildStep::ResetSignal(_) => 8,
        ChildStep::Exec => 9,
    }
}

/// A forked child takes exactly the steps that are called for, each once and in
/// its turn: its ends of the pipes are put in their places, all else is closed,
/// then come the session, the directory and the group, as far as each is asked
/// for, then the signals, and last its program.
#[verifier::spinoff_prover]
#[verifier::rlimit(30)]
pub proof fn law_child_plan_is_complete(
    p: Pipes<i32>,
    group: ProcessGroup,
    cwd: bool,
    step: ChildStep,
    i: int,
    j: int,
)
    ensures
        child_steps(p, group, cwd).contains(step) <==> takes_step(p, group, cwd, step),
        0 <= i < j < child_steps(p, group, cwd).len() ==> turn_of_step(
            child_steps(p, group, cwd)[i],
        ) < turn_of_step(child_steps(p, group, cwd)[j]),
{
    let steps = child_steps(p, group, cwd);
    let a = stream_steps(p, Stream::Stdin).len() as int;
    let b = a + stream_steps(p, Stream::Stdout).len();
    let c = b + stream_steps(p, Stream::Stderr).len();
    let d = c + 1 + step_if(group.isolated, ChildStep::NewSession).len();
    let e = d + step_if(cwd, ChildStep::ChangeDir).len();
    let f = e + step_if(group.leader is Some, ChildStep::JoinGroup(group.leader->0)).len();
    assert(steps.len() == f + 3);
    assert forall|k: int| 0 <= k < steps.len() implies takes_step(
        p,
        group,
        cwd,
        #[trigger] steps[k],
    ) by {
        lemma_place_of_step(p, group, cwd, k);
    }
    if takes_step(p, group, cwd, step) {
        let k: int = match step {
            ChildStep::Dup2 { stream: Stream::Stdin, .. } => 0,
            ChildStep::Dup2 { stream: Stream::Stdout, .. } => a,
            ChildStep::Dup2 { stream: Stream::Stderr, .. } => b,
            ChildStep::CloseOthers => c,
            ChildStep::NewSession => c + 1,
            ChildStep::ChangeDir => d,
            ChildStep::JoinGroup(_) => e,
            ChildStep::UnblockSignals => f,
            ChildStep::ResetSignal(_) => f + 1,
            ChildStep::Exec => f + 2,
        };
        lemma_place_of_step(p, group, cwd, k);
        assert(steps[k] == step);
    }
    if 0 <= i < j < steps.len() {
        lemma_place_of_step(p, group, cwd, i);
        lemma_place_of_step(p, group, cwd, j);
    }
}

/// Which step of a forked child stands at `k`.
#[verifier::spinoff_prover]
#[verifier::rlimit(30)]
proof fn lemma_place_of_step(p: Pipes<i32>, group: ProcessGroup, cwd: bool, k: int)
    requires
        0 <= k < child_steps(p, group, cwd).len(),
    ensures
        ({
            let a = stream_steps(p, Stream::Stdin).len();
            let b = a + stream_steps(p, Stream::Stdout).len();
            let c = b + stream_steps(p, Stream::Stderr).len();
            let d = c + 1 + step_if(group.isolated, ChildStep::NewSession).len();
            let e = d + step_if(cwd, ChildStep::ChangeDir).len();
            let f = e + step_if(
                group.leader is Some,
                ChildStep::JoinGroup(group.leader->0),
            ).len();
            child_steps(p, group, cwd)[k] == if k < a {
                stream_steps(p, Stream::Stdin)[k]
            } else if k < b {
                stream_steps(p, Stream::Stdout)[k - a]
            } else if k < c {
                stream_steps(p, Stream::Stderr)[k - b]
            } else if k == c {
                ChildStep::CloseOthers
            } else if k < d {
                ChildStep::NewSession
            } else if k < e {
                ChildStep::ChangeDir
            } else if k < f {
                ChildStep::JoinGroup(group.leader->0)
            } else if k == f {
                ChildStep::UnblockSignals
            } else if k == f + 1 {
                ChildStep::ResetSignal(SIGPIPE)
            } else {
                ChildStep::Exec
            }
        }),
{
}

/// Which operation a failed step is reported as. Only closing the listed
/// descriptors is of no account, whatever became of it.
pub proof fn law_steps_have_their_names(fd: i32)
    ensures
        op_name(PosixOp::InitActions) == Some("file_actions_init"@),
        op_name(PosixOp::Dup2 { stream: Stream::Stdin, fd }) == Some("dup2 stdin"@),
        op_name(PosixOp::Dup2 { stream: Stream::Stdout, fd }) == Some("dup2 stdout"@),
        op_name(PosixOp::Dup2 { stream: Stream::Stderr, fd }) == Some("dup2 stderr"@),
        op_name(PosixOp::CloseChildEnd { stream: Stream::Stdin, fd }) == Some("close stdin pipe"@),
        op_name(PosixOp::CloseChildEnd { stream: Stream::Stdout, fd }) == Some(
            "close stdout pipe"@,
        ),
        op_name(PosixOp::CloseChildEnd { stream: Stream::Stderr, fd }) == Some(
            "close stderr pipe"@,
        ),
        op_name(PosixOp::CloseParentEnd { stream: Stream::Stdin, fd }) == Some(
            "close stdin write pipe"@,
        ),
        op_name(PosixOp::CloseParentEnd { stream: Stream::Stdout, fd }) == Some(
            "close stdout read pipe"@,
        ),
        op_name(PosixOp::CloseParentEnd { stream: Stream::Stderr, fd }) == Some(
            "close stderr read pipe"@,
        ),
        op_name(PosixOp::CloseListed) is None,
        op_name(PosixOp::InitAttributes) == Some("attr_init"@),
        op_name(PosixOp::JoinGroup(fd)) == Some("setpgroup"@),
        op_name(PosixOp::SetFlags(fd)) == Some("setflags"@),
        op_name(PosixOp::BlockNoSignal) == Some("setsigmask"@),
        op_name(PosixOp::DefaultSignal(fd)) == Some("setsigdefault"@),
        op_name(PosixOp::Spawn) == Some("posix_spawn"@),
{
}

/// The child is told by a zero and the parent by the child's ID; a negative number
/// is a failure, reported with its error number.
pub proof fn law_sides_of_a_fork(pid: i32, code: i32, r: Result<ForkSide, SysError>)
    requires
        call_ensures(fork_side, (pid, code), r),
    ensures
        r is Err <==> pid < 0,
        r matches Err(e) ==> e->code == code,
        r == Ok::<ForkSide, SysError>(ForkSide::Child) <==> pid == 0,
        r matches Ok(ForkSide::Parent(child)) ==> child == pid && pid > 0,
{
}

/// A child goes on after every step but two: where it could not enter its
/// directory, and where it is still there after running its program. Then it exits
/// with 127.
pub proof fn law_children_exit_where_they_must(step: &ChildStep, ret: i32, r: Option<i32>)
    requires
        call_ensures(ChildStep::exit_code, (step, ret), r),
    ensures
        r matches Some(code) ==> code == 127,
        r is Some <==> *step is Exec || (*step is ChangeDir && ret != 0),
{
}

/// A step fails exactly where its call returned an error number, which is then
/// that of the failure; but closing the listed descriptors never fails.
pub proof fn law_steps_fail_with_their_number(op: &PosixOp, ret: i32, r: Result<(), SysError>)
    requires
        call_ensures(PosixOp::outcome, (op, ret), r),
    ensures
        r is Err <==> ret != 0 && !(*op is CloseListed),
        r matches Err(e) ==> e->code == ret,
{
}

} // verus!
