//! What a new program finds open.
//!
//! The descriptors of a process are modelled as a table of the open files behind
//! them and of which are closed when a program is run, and the steps of a plan as
//! what they do to that table.

use vstd::prelude::*;
use crate::io::drain::Stream;
use crate::spawn::descriptors;
use crate::spawn::pipes::Pipes;
use crate::spawn::plan;
use crate::spawn::plan::{ChildStep, PosixOp};
use crate::sys::signal::ProcessGroup;
use crate::text;

verus! {

/// The descriptors of a process.
pub struct Table {
    /// The open file behind each descriptor.
    pub files: Map<int, int>,
    /// The descriptors that are closed when a program is run.
    pub cloexec: Set<int>,
}

impl Table {
    /// Once `fd` is open under the number `target` too. The new number is not
    /// closed when a program is run; where both are the same, nothing changes.
    pub open spec fn duplicated(self, fd: int, target: int) -> Table {
        if fd != target && self.files.dom().contains(fd) {
            Table {
                files: self.files.insert(target, self.files[fd]),
                cloexec: self.cloexec.remove(target),
            }
        } else {
            self
        }
    }

    /// Once `fd` is closed.
    pub open spec fn closed(self, fd: int) -> Table {
        Table { files: self.files.remove(fd), ..self }
    }

    /// Once a program is run.
    pub open spec fn run(self) -> Table {
        Table { files: self.files.remove_keys(self.cloexec), ..self }
    }
}

/// The descriptors that the listed names call for closing.
pub open spec fn listed_closes(names: Seq<Seq<u8>>, dir_fd: i32, handled: Seq<i32>) -> Set<int> {
    Set::new(
        |fd: int|
            exists|i: int|
                0 <= i < names.len() && descriptors::closed_in_child(
                    #[trigger] names[i],
                    dir_fd,
                    handled,
                ) == Some(fd as i32) && i32::MIN <= fd <= i32::MAX,
    )
}

/// The child's table once it has taken a step of `posix_spawn`.
pub open spec fn after_op(t: Table, op: PosixOp, listed: Set<int>) -> Table {
    match op {
        PosixOp::Dup2 { stream, fd } => t.duplicated(
            fd as int,
            plan::standard_fd(stream) as int,
        ),
        PosixOp::CloseChildEnd { fd, .. } => t.closed(fd as int),
        PosixOp::CloseParentEnd { fd, .. } => t.closed(fd as int),
        PosixOp::CloseListed => Table { files: t.files.remove_keys(listed), ..t },
        PosixOp::Spawn => t.run(),
        _ => t,
    }
}

/// The child's table once it has taken all of the steps.
pub open spec fn after_ops(t: Table, ops: Seq<PosixOp>, listed: Set<int>) -> Table
    decreases ops.len(),
{
    if ops.len() == 0 {
        t
    } else {
        after_op(after_ops(t, ops.drop_last(), listed), ops.last(), listed)
    }
}

/// The child's table once it has taken a step after a fork.
pub open spec fn after_step(t: Table, step: ChildStep) -> Table {
    match step {
        ChildStep::Dup2 { stream, fd } => t.duplicated(
            fd as int,
            plan::standard_fd(stream) as int,
        ),
        ChildStep::CloseOthers => Table {
            files: t.files.restrict(Set::new(|fd: int| fd <= 2)),
            ..t
        },
        ChildStep::Exec => t.run(),
        _ => t,
    }
}

/// The child's table once it has taken all of the steps.
pub open spec fn after_steps(t: Table, steps: Seq<ChildStep>) -> Table
    decreases steps.len(),
{
    if steps.len() == 0 {
        t
    } else {
        after_step(after_steps(t, steps.drop_last()), steps.last())
    }
}

/// The file that a stream of the new program is: its pipe, or what it was, where
/// running a program does not close that.
pub open spec fn stream_file(t: Table, p: Pipes<i32>, stream: Stream) -> Option<int> {
    let fd = plan::standard_fd(stream) as int;
    match plan::pipe_sides(p, stream) {
        Some((child, _)) => Some(t.files[child as int]),
        None => if t.files.dom().contains(fd) && !t.cloexec.contains(fd) {
            Some(t.files[fd])
        } else {
            None
        },
    }
}

/// The file behind a standard stream.
pub open spec fn file_at(t: Table, stream: Stream) -> Option<int> {
    let fd = plan::standard_fd(stream) as int;
    if t.files.dom().contains(fd) {
        Some(t.files[fd])
    } else {
        None
    }
}

/// Whether the table holds the standard streams as they should be, and nothing
/// else.
pub open spec fn only_streams(end: Table, t: Table, p: Pipes<i32>) -> bool {
    &&& forall|fd: int| #[trigger] end.files.dom().contains(fd) ==> 0 <= fd <= 2
    &&& forall|stream: Stream| (#[trigger] file_at(end, stream)) == stream_file(t, p, stream)
}

/// Whether `fd` is an end of the stream's pipe.
pub open spec fn is_end(p: Pipes<i32>, stream: Stream, fd: i32) -> bool {
    p.pipe(stream).0 == Some(fd) || p.pipe(stream).1 == Some(fd)
}

/// Whether the pipe of each stream has both ends or neither, the ends are open,
/// and no two of them are the same descriptor.
pub open spec fn proper_pipes(t: Table, p: Pipes<i32>) -> bool {
    &&& forall|stream: Stream|
        #![trigger p.pipe(stream)]
        (p.pipe(stream).0 is Some <==> p.pipe(stream).1 is Some) && (p.pipe(stream).0 is Some
            ==> p.pipe(stream).0 != p.pipe(stream).1)
    &&& forall|stream: Stream, fd: i32| #[trigger]
        is_end(p, stream, fd) ==> t.files.dom().contains(fd as int)
    &&& forall|a: Stream, b: Stream, fd: i32| #[trigger]
        is_end(p, a, fd) && #[trigger] is_end(p, b, fd) ==> a == b
}

proof fn lemma_ops_concat(t: Table, a: Seq<PosixOp>, b: Seq<PosixOp>, listed: Set<int>)
    ensures
        after_ops(t, a + b, listed) == after_ops(after_ops(t, a, listed), b, listed),
    decreases b.len(),
{
    if b.len() == 0 {
        assert(a + b =~= a);
    } else {
        lemma_ops_concat(t, a, b.drop_last(), listed);
        assert((a + b).drop_last() =~= a + b.drop_last());
    }
}

proof fn lemma_steps_concat(t: Table, a: Seq<ChildStep>, b: Seq<ChildStep>)
    ensures
        after_steps(t, a + b) == after_steps(after_steps(t, a), b),
    decreases b.len(),
{
    if b.len() == 0 {
        assert(a + b =~= a);
    } else {
        lemma_steps_concat(t, a, b.drop_last());
        assert((a + b).drop_last() =~= a + b.drop_last());
    }
}

/// Whether no pipe end stands where closing it would take a standard stream
/// away: 0 is no end, 1 is none of a pipe that is seen to after stdout is in
/// place, and 2 none of stderr's own pipe; a stream that is not piped is no
/// end at all.
pub open spec fn ends_spare_streams(p: Pipes<i32>) -> bool {
    &&& forall|stream: Stream| !#[trigger] is_end(p, stream, 0)
    &&& !is_end(p, Stream::Stdout, 1) && !is_end(p, Stream::Stderr, 1)
    &&& p.stdout_r is None ==> !is_end(p, Stream::Stdin, 1)
    &&& !is_end(p, Stream::Stderr, 2)
    &&& p.stderr_r is None ==> !is_end(p, Stream::Stdin, 2) && !is_end(p, Stream::Stdout, 2)
}

/// The table once one stream has been seen to.
spec fn after_stream(t: Table, p: Pipes<i32>, stream: Stream) -> Table {
    match plan::pipe_sides(p, stream) {
        Some((child, parent)) => t.duplicated(
            child as int,
            plan::standard_fd(stream) as int,
        ).closed(child as int).closed(parent as int),
        None => t,
    }
}

/// The table once all streams have been seen to.
spec fn after_streams(t: Table, p: Pipes<i32>) -> Table {
    after_stream(
        after_stream(after_stream(t, p, Stream::Stdin), p, Stream::Stdout),
        p,
        Stream::Stderr,
    )
}

/// What the steps for one stream do.
proof fn lemma_stream_ops(t: Table, p: Pipes<i32>, stream: Stream, listed: Set<int>)
    ensures
        after_ops(t, plan::stream_ops(p, stream), listed) == after_stream(t, p, stream),
{
    reveal_with_fuel(after_ops, 4);
    let ops = plan::stream_ops(p, stream);
    if let Some((child, parent)) = plan::pipe_sides(p, stream) {
        assert(ops.drop_last().drop_last() =~= seq![ops[0]]);
        assert(ops.drop_last().last() == ops[1]);
        assert(ops.drop_last().drop_last().drop_last() =~= Seq::<PosixOp>::empty());
    }
}

/// What all steps of `posix_spawn` do.
proof fn lemma_posix_steps(t: Table, p: Pipes<i32>, leader: Option<i32>, listed: Set<int>)
    ensures
        after_ops(t, plan::posix_steps(p, leader), listed) == ({
            let seen = after_streams(t, p);
            Table { files: seen.files.remove_keys(listed), ..seen }
        }).run(),
{
    let init = seq![PosixOp::InitActions];
    let a = init + plan::stream_ops(p, Stream::Stdin);
    let b = a + plan::stream_ops(p, Stream::Stdout);
    let c = b + plan::stream_ops(p, Stream::Stderr);
    let close = seq![PosixOp::CloseListed, PosixOp::InitAttributes];
    let d = c + close;
    let group = plan::group_ops(leader);
    let e = d + group;
    let rest = seq![
        PosixOp::SetFlags(plan::spawn_flags(leader)),
        PosixOp::BlockNoSignal,
        PosixOp::DefaultSignal(crate::sys::signal::SIGPIPE),
        PosixOp::Spawn,
    ];
    assert(plan::posix_steps(p, leader) =~= e + rest);
    lemma_ops_concat(t, init, plan::stream_ops(p, Stream::Stdin), listed);
    lemma_ops_concat(t, a, plan::stream_ops(p, Stream::Stdout), listed);
    lemma_ops_concat(t, b, plan::stream_ops(p, Stream::Stderr), listed);
    lemma_ops_concat(t, c, close, listed);
    lemma_ops_concat(t, d, group, listed);
    lemma_ops_concat(t, e, rest, listed);
    assert(after_ops(t, init, listed) == t) by {
        reveal_with_fuel(after_ops, 2);
        assert(init.drop_last() =~= Seq::<PosixOp>::empty());
    }
    let t1 = after_ops(t, a, listed);
    let t2 = after_ops(t, b, listed);
    let t3 = after_ops(t, c, listed);
    let t4 = after_ops(t, d, listed);
    let t5 = after_ops(t, e, listed);
    lemma_stream_ops(t, p, Stream::Stdin, listed);
    lemma_stream_ops(t1, p, Stream::Stdout, listed);
    lemma_stream_ops(t2, p, Stream::Stderr, listed);
    assert(t4 == (Table { files: t3.files.remove_keys(listed), ..t3 })) by {
        reveal_with_fuel(after_ops, 3);
        assert(close.drop_last() =~= seq![PosixOp::CloseListed]);
        assert(close.drop_last().drop_last() =~= Seq::<PosixOp>::empty());
    }
    assert(t5 == t4) by {
        reveal_with_fuel(after_ops, 2);
        if leader is Some {
            assert(group.drop_last() =~= Seq::<PosixOp>::empty());
        }
    }
    assert(after_ops(t, e + rest, listed) == t5.run()) by {
        reveal_with_fuel(after_ops, 5);
        assert(rest.drop_last().drop_last().drop_last() =~= seq![rest[0]]);
        assert(rest.drop_last().drop_last().drop_last().drop_last() =~= Seq::<PosixOp>::empty());
    }
}

/// Whether the pipe of each stream has both ends or neither.
pub open spec fn whole_pipes(p: Pipes<i32>) -> bool {
    forall|stream: Stream| (#[trigger] p.pipe(stream)).0 is Some <==> p.pipe(stream).1 is Some
}

/// Once all streams have been seen to, nothing is open that was not, but for the
/// streams, and no pipe end under another number than that of a stream.
proof fn lemma_ends_are_closed(t: Table, p: Pipes<i32>)
    requires
        whole_pipes(p),
    ensures
        ({
            let end = after_streams(t, p);
            &&& forall|fd: int| #[trigger]
                end.files.dom().contains(fd) && !(0 <= fd <= 2) ==> t.files.dom().contains(fd)
            &&& forall|stream: Stream, fd: i32| #[trigger]
                is_end(p, stream, fd) && fd > 2 ==> !end.files.dom().contains(fd as int)
        }),
{
    assert(p.pipe(Stream::Stdin) == (p.stdin_r, p.stdin_w));
    assert(p.pipe(Stream::Stdout) == (p.stdout_r, p.stdout_w));
    assert(p.pipe(Stream::Stderr) == (p.stderr_r, p.stderr_w));
    lemma_side_ends(p, Stream::Stdin);
    lemma_side_ends(p, Stream::Stdout);
    lemma_side_ends(p, Stream::Stderr);
    let end = after_streams(t, p);
    assert forall|stream: Stream, fd: i32| #[trigger] is_end(p, stream, fd) && fd > 2 implies
        !end.files.dom().contains(fd as int) by {
        match stream {
            Stream::Stdin => {},
            Stream::Stdout => {},
            Stream::Stderr => {},
        }
    }
}

/// Once all streams have been seen to, each is in place.
proof fn lemma_streams_in_place(t: Table, p: Pipes<i32>)
    requires
        proper_pipes(t, p),
        ends_spare_streams(p),
    ensures
        forall|stream: Stream|
            (#[trigger] file_at(after_streams(t, p).run(), stream)) == stream_file(t, p, stream),
{
    assert(p.pipe(Stream::Stdin) == (p.stdin_r, p.stdin_w));
    assert(p.pipe(Stream::Stdout) == (p.stdout_r, p.stdout_w));
    assert(p.pipe(Stream::Stderr) == (p.stderr_r, p.stderr_w));
    lemma_side_ends(p, Stream::Stdin);
    lemma_side_ends(p, Stream::Stdout);
    lemma_side_ends(p, Stream::Stderr);
    let end = after_streams(t, p);
    assert(file_at(end.run(), Stream::Stdin) == stream_file(t, p, Stream::Stdin));
    assert(file_at(end.run(), Stream::Stdout) == stream_file(t, p, Stream::Stdout));
    assert(file_at(end.run(), Stream::Stderr) == stream_file(t, p, Stream::Stderr));
    assert forall|stream: Stream|
        (#[trigger] file_at(end.run(), stream)) == stream_file(t, p, stream) by {
        match stream {
            Stream::Stdin => {},
            Stream::Stdout => {},
            Stream::Stderr => {},
        }
    }
}

/// Whether `names` lists every open descriptor, and the one that the listing was
/// read through is closed since.
pub open spec fn lists_all(names: Seq<Seq<u8>>, dir_fd: i32, t: Table) -> bool {
    forall|fd: int| #[trigger]
        t.files.dom().contains(fd) ==> 0 <= fd <= i32::MAX && fd != dir_fd && exists|i: int|
            0 <= i < names.len() && text::i32_of(#[trigger] names[i]) == Some(fd as i32)
}

/// A program started by `posix_spawn` finds nothing open but its standard
/// streams, wherever its pipes are.
///
/// `names` is what `/proc/self/fd` lists, and `dir_fd` the descriptor that the
/// listing was read through.
pub proof fn law_posix_child_inherits_nothing_else(
    t: Table,
    p: Pipes<i32>,
    leader: Option<i32>,
    names: Seq<Seq<u8>>,
    dir_fd: i32,
    fd: int,
)
    requires
        whole_pipes(p),
        lists_all(names, dir_fd, t),
        after_ops(
            t,
            plan::posix_steps(p, leader),
            listed_closes(names, dir_fd, descriptors::ends(p)),
        ).files.dom().contains(fd),
    ensures
        0 <= fd <= 2,
{
    let listed = listed_closes(names, dir_fd, descriptors::ends(p));
    let seen = after_streams(t, p);
    lemma_posix_steps(t, p, leader, listed);
    lemma_ends_are_closed(t, p);
    lemma_ends(p);
    assert(seen.files.dom().contains(fd));
    if !(0 <= fd <= 2) {
        assert(t.files.dom().contains(fd));
        let n = fd as i32;
        let i = choose|i: int| 0 <= i < names.len() && text::i32_of(#[trigger] names[i]) == Some(n);
        if descriptors::ends(p).contains(n) {
            let stream = choose|stream: Stream| is_end(p, stream, n);
            assert(is_end(p, stream, n));
        } else {
            assert(descriptors::closed_in_child(names[i], dir_fd, descriptors::ends(p)) == Some(
                n,
            ));
            assert(listed.contains(fd));
        }
    }
}

/// A program started by `posix_spawn` finds its standard streams, each its pipe
/// where it has one and what it was where it has none, and nothing else open.
///
/// `names` is what `/proc/self/fd` lists, and `dir_fd` the descriptor that the
/// listing was read through, closed since.
pub proof fn law_posix_child_keeps_only_streams(
    t: Table,
    p: Pipes<i32>,
    leader: Option<i32>,
    names: Seq<Seq<u8>>,
    dir_fd: i32,
)
    requires
        proper_pipes(t, p),
        ends_spare_streams(p),
        lists_all(names, dir_fd, t),
    ensures
        only_streams(
            after_ops(
                t,
                plan::posix_steps(p, leader),
                listed_closes(names, dir_fd, descriptors::ends(p)),
            ),
            t,
            p,
        ),
{
    let listed = listed_closes(names, dir_fd, descriptors::ends(p));
    let seen = after_streams(t, p);
    let end = after_ops(t, plan::posix_steps(p, leader), listed);
    lemma_posix_steps(t, p, leader, listed);
    lemma_streams_in_place(t, p);
    assert forall|fd: int| #[trigger] end.files.dom().contains(fd) implies 0 <= fd <= 2 by {
        law_posix_child_inherits_nothing_else(t, p, leader, names, dir_fd, fd);
    }
    assert forall|stream: Stream| (#[trigger] file_at(end, stream)) == stream_file(
        t,
        p,
        stream,
    ) by {
        assert(file_at(seen.run(), stream) == stream_file(t, p, stream));
        assert(!listed.contains(plan::standard_fd(stream) as int));
    }
}

/// Whether a stream's pipe is there when the stream takes it, and stays: the
/// child's end is not where an earlier stream has been put, and one that has the
/// stream's number already is not closed when a program is run.
pub open spec fn ends_outlive_streams(t: Table, p: Pipes<i32>) -> bool {
    &&& forall|stream: Stream| (#[trigger] plan::pipe_sides(p, stream)) matches Some((child, _))
        ==> child == plan::standard_fd(stream) ==> !t.cloexec.contains(child as int)
    &&& p.stdin_r is Some ==> p.stdout_w != Some(0i32) && p.stderr_w != Some(0i32)
    &&& p.stdout_r is Some ==> p.stderr_w != Some(1i32)
}

/// The table once a stream has been put in place.
spec fn after_dup(t: Table, p: Pipes<i32>, stream: Stream) -> Table {
    match plan::pipe_sides(p, stream) {
        Some((child, _)) if child != plan::standard_fd(stream) => t.duplicated(
            child as int,
            plan::standard_fd(stream) as int,
        ),
        _ => t,
    }
}

/// The table once all streams have been put in place.
spec fn after_dups(t: Table, p: Pipes<i32>) -> Table {
    after_dup(after_dup(after_dup(t, p, Stream::Stdin), p, Stream::Stdout), p, Stream::Stderr)
}

/// What the step for one stream does.
proof fn lemma_stream_steps(t: Table, p: Pipes<i32>, stream: Stream)
    ensures
        after_steps(t, plan::stream_steps(p, stream)) == after_dup(t, p, stream),
{
    reveal_with_fuel(after_steps, 2);
    let steps = plan::stream_steps(p, stream);
    if steps.len() > 0 {
        assert(steps.drop_last() =~= Seq::<ChildStep>::empty());
    }
}

/// Steps that have nothing to do with descriptors leave them alone.
proof fn lemma_other_steps(t: Table, steps: Seq<ChildStep>)
    requires
        forall|i: int|
            0 <= i < steps.len() ==> !(#[trigger] steps[i] is Dup2) && !(steps[i] is CloseOthers)
                && !(steps[i] is Exec),
    ensures
        after_steps(t, steps) == t,
    decreases steps.len(),
{
    if steps.len() > 0 {
        assert(!(steps[steps.len() - 1] is Dup2));
        lemma_other_steps(t, steps.drop_last());
    }
}

/// What the steps after a fork come to: the streams are put in place, all else is
/// closed, and the program is run.
proof fn lemma_child_steps(t: Table, p: Pipes<i32>, group: ProcessGroup, cwd: bool)
    ensures
        after_steps(t, plan::child_steps(p, group, cwd)) == after_step(
            after_dups(t, p),
            ChildStep::CloseOthers,
        ).run(),
{
    let a = plan::stream_steps(p, Stream::Stdin);
    let b = a + plan::stream_steps(p, Stream::Stdout);
    let c = b + plan::stream_steps(p, Stream::Stderr);
    let close = seq![ChildStep::CloseOthers];
    let d = c + close;
    let rest = plan::step_if(group.isolated, ChildStep::NewSession) + plan::step_if(
        cwd,
        ChildStep::ChangeDir,
    ) + plan::step_if(group.leader is Some, ChildStep::JoinGroup(group.leader->0)) + seq![
        ChildStep::UnblockSignals,
        ChildStep::ResetSignal(crate::sys::signal::SIGPIPE),
    ];
    let exec = seq![ChildStep::Exec];
    assert(plan::child_steps(p, group, cwd) =~= (d + rest) + exec);
    lemma_steps_concat(t, a, plan::stream_steps(p, Stream::Stdout));
    lemma_steps_concat(t, b, plan::stream_steps(p, Stream::Stderr));
    lemma_steps_concat(t, c, close);
    lemma_steps_concat(t, d, rest);
    lemma_steps_concat(t, d + rest, exec);
    let t1 = after_steps(t, a);
    let t2 = after_steps(t, b);
    let t3 = after_steps(t, c);
    let t4 = after_steps(t, d);
    lemma_stream_steps(t, p, Stream::Stdin);
    lemma_stream_steps(t1, p, Stream::Stdout);
    lemma_stream_steps(t2, p, Stream::Stderr);
    assert(t4 == after_step(t3, ChildStep::CloseOthers)) by {
        reveal_with_fuel(after_steps, 2);
        assert(close.drop_last() =~= Seq::<ChildStep>::empty());
    }
    lemma_other_steps(t4, rest);
    assert(after_steps(t, (d + rest) + exec) == t4.run()) by {
        reveal_with_fuel(after_steps, 2);
        assert(exec.drop_last() =~= Seq::<ChildStep>::empty());
    }
}

/// A program started by `fork` finds nothing open but its standard streams,
/// wherever its pipes are.
pub proof fn law_forked_child_inherits_nothing_else(
    t: Table,
    p: Pipes<i32>,
    group: ProcessGroup,
    cwd: bool,
    fd: int,
)
    requires
        forall|n: int| #[trigger] t.files.dom().contains(n) ==> 0 <= n,
        after_steps(t, plan::child_steps(p, group, cwd)).files.dom().contains(fd),
    ensures
        0 <= fd <= 2,
{
    lemma_child_steps(t, p, group, cwd);
    assert(after_dups(t, p).files.dom().contains(fd));
}

/// A program started by `fork` finds its standard streams, each its pipe where
/// it has one and what it was where it has none, and nothing else open.
pub proof fn law_forked_child_keeps_only_streams(
    t: Table,
    p: Pipes<i32>,
    group: ProcessGroup,
    cwd: bool,
)
    requires
        proper_pipes(t, p),
        ends_outlive_streams(t, p),
        forall|fd: int| #[trigger] t.files.dom().contains(fd) ==> 0 <= fd,
    ensures
        only_streams(after_steps(t, plan::child_steps(p, group, cwd)), t, p),
{
    let t5 = after_steps(t, plan::child_steps(p, group, cwd));
    lemma_child_steps(t, p, group, cwd);
    assert forall|fd: int| #[trigger] t5.files.dom().contains(fd) implies 0 <= fd <= 2 by {
        law_forked_child_inherits_nothing_else(t, p, group, cwd, fd);
    }
    assert(p.pipe(Stream::Stdin) == (p.stdin_r, p.stdin_w));
    assert(p.pipe(Stream::Stdout) == (p.stdout_r, p.stdout_w));
    assert(p.pipe(Stream::Stderr) == (p.stderr_r, p.stderr_w));
    lemma_side_ends(p, Stream::Stdin);
    lemma_side_ends(p, Stream::Stdout);
    lemma_side_ends(p, Stream::Stderr);
    assert forall|stream: Stream| (#[trigger] file_at(t5, stream)) == stream_file(
        t,
        p,
        stream,
    ) by {
        match stream {
            Stream::Stdin => {},
            Stream::Stdout => {},
            Stream::Stderr => {},
        }
    }
}

/// The sides of a stream's pipe are its ends.
proof fn lemma_side_ends(p: Pipes<i32>, stream: Stream)
    ensures
        plan::pipe_sides(p, stream) matches Some((child, parent)) ==> is_end(p, stream, child)
            && is_end(p, stream, parent),
        plan::pipe_sides(p, stream) is Some <==> p.pipe(stream).0 is Some && p.pipe(stream).1 is Some,
        plan::pipe_sides(p, stream) matches Some((child, parent)) ==> forall|fd: i32| #[trigger]
            is_end(p, stream, fd) ==> fd == child || fd == parent,
{
}

/// What is among the ends is an end of some stream's pipe, and conversely.
proof fn lemma_ends(p: Pipes<i32>)
    ensures
        forall|fd: i32| #[trigger]
            descriptors::ends(p).contains(fd) <==> exists|stream: Stream| is_end(p, stream, fd),
{
    assert forall|fd: i32| #[trigger] descriptors::ends(p).contains(fd) implies exists|
        stream: Stream,
    | is_end(p, stream, fd) by {
        if p.stdin_r == Some(fd) || p.stdin_w == Some(fd) {
            assert(is_end(p, Stream::Stdin, fd));
        } else if p.stdout_r == Some(fd) || p.stdout_w == Some(fd) {
            assert(is_end(p, Stream::Stdout, fd));
        } else {
            assert(is_end(p, Stream::Stderr, fd));
        }
    }
    assert forall|fd: i32| (exists|stream: Stream| is_end(p, stream, fd)) implies #[trigger]
    descriptors::ends(p).contains(fd) by {
        let a = descriptors::end(p.stdin_r);
        let b = a + descriptors::end(p.stdin_w);
        let c = b + descriptors::end(p.stdout_r);
        let d = c + descriptors::end(p.stdout_w);
        let e = d + descriptors::end(p.stderr_r);
        let f = e + descriptors::end(p.stderr_w);
        assert(f == descriptors::ends(p));
        if p.stdin_r == Some(fd) {
            assert(f[0] == fd);
        } else if p.stdin_w == Some(fd) {
            assert(f[a.len() as int] == fd);
        } else if p.stdout_r == Some(fd) {
            assert(f[b.len() as int] == fd);
        } else if p.stdout_w == Some(fd) {
            assert(f[c.len() as int] == fd);
        } else if p.stderr_r == Some(fd) {
            assert(f[d.len() as int] == fd);
        } else {
            assert(f[e.len() as int] == fd);
        }
    }
}

/// What it means for the streams to be in place, by their numbers.
proof fn lemma_streams_by_number(t: Table, end: Table, p: Pipes<i32>)
    requires
        proper_pipes(t, p),
        only_streams(end, t, p),
    ensures
        p.stdin_r is Some ==> end.files.dom().contains(0) && end.files[0]
            == t.files[p.stdin_r->0 as int],
        p.stdout_w is Some ==> end.files.dom().contains(1) && end.files[1]
            == t.files[p.stdout_w->0 as int],
        p.stderr_w is Some ==> end.files.dom().contains(2) && end.files[2]
            == t.files[p.stderr_w->0 as int],
        p.stdin_r is None ==> (end.files.dom().contains(0) <==> t.files.dom().contains(0)
            && !t.cloexec.contains(0)) && (end.files.dom().contains(0) ==> end.files[0]
            == t.files[0]),
        p.stdout_w is None ==> (end.files.dom().contains(1) <==> t.files.dom().contains(1)
            && !t.cloexec.contains(1)) && (end.files.dom().contains(1) ==> end.files[1]
            == t.files[1]),
        p.stderr_w is None ==> (end.files.dom().contains(2) <==> t.files.dom().contains(2)
            && !t.cloexec.contains(2)) && (end.files.dom().contains(2) ==> end.files[2]
            == t.files[2]),
{
    assert(p.pipe(Stream::Stdin) == (p.stdin_r, p.stdin_w));
    assert(p.pipe(Stream::Stdout) == (p.stdout_r, p.stdout_w));
    assert(p.pipe(Stream::Stderr) == (p.stderr_r, p.stderr_w));
    assert(file_at(end, Stream::Stdin) == stream_file(t, p, Stream::Stdin));
    assert(file_at(end, Stream::Stdout) == stream_file(t, p, Stream::Stdout));
    assert(file_at(end, Stream::Stderr) == stream_file(t, p, Stream::Stderr));
}

/// A program started by `posix_spawn` reads from 0 what stdin's pipe brings, and
/// writes to 1 and 2 into the pipes of stdout and stderr; a stream without a pipe
/// is what it was.
pub proof fn law_posix_child_uses_its_pipes(
    t: Table,
    end: Table,
    p: Pipes<i32>,
    leader: Option<i32>,
    names: Seq<Seq<u8>>,
    dir_fd: i32,
)
    requires
        proper_pipes(t, p),
        ends_spare_streams(p),
        lists_all(names, dir_fd, t),
        end == after_ops(
            t,
            plan::posix_steps(p, leader),
            listed_closes(names, dir_fd, descriptors::ends(p)),
        ),
    ensures
        p.stdin_r is Some ==> end.files.dom().contains(0) && end.files[0]
            == t.files[p.stdin_r->0 as int],
        p.stdout_w is Some ==> end.files.dom().contains(1) && end.files[1]
            == t.files[p.stdout_w->0 as int],
        p.stderr_w is Some ==> end.files.dom().contains(2) && end.files[2]
            == t.files[p.stderr_w->0 as int],
        p.stdin_r is None ==> (end.files.dom().contains(0) <==> t.files.dom().contains(0)
            && !t.cloexec.contains(0)) && (end.files.dom().contains(0) ==> end.files[0]
            == t.files[0]),
        p.stdout_w is None ==> (end.files.dom().contains(1) <==> t.files.dom().contains(1)
            && !t.cloexec.contains(1)) && (end.files.dom().contains(1) ==> end.files[1]
            == t.files[1]),
        p.stderr_w is None ==> (end.files.dom().contains(2) <==> t.files.dom().contains(2)
            && !t.cloexec.contains(2)) && (end.files.dom().contains(2) ==> end.files[2]
            == t.files[2]),
{
    law_posix_child_keeps_only_streams(t, p, leader, names, dir_fd);
    lemma_streams_by_number(t, end, p);
}

/// A program started by `fork` reads from 0 what stdin's pipe brings, and writes
/// to 1 and 2 into the pipes of stdout and stderr; a stream without a pipe is what
/// it was.
pub proof fn law_forked_child_uses_its_pipes(
    t: Table,
    end: Table,
    p: Pipes<i32>,
    group: ProcessGroup,
    cwd: bool,
)
    requires
        proper_pipes(t, p),
        ends_outlive_streams(t, p),
        forall|fd: int| #[trigger] t.files.dom().contains(fd) ==> 0 <= fd,
        end == after_steps(t, plan::child_steps(p, group, cwd)),
    ensures
        p.stdin_r is Some ==> end.files.dom().contains(0) && end.files[0]
            == t.files[p.stdin_r->0 as int],
        p.stdout_w is Some ==> end.files.dom().contains(1) && end.files[1]
            == t.files[p.stdout_w->0 as int],
        p.stderr_w is Some ==> end.files.dom().contains(2) && end.files[2]
            == t.files[p.stderr_w->0 as int],
        p.stdin_r is None ==> (end.files.dom().contains(0) <==> t.files.dom().contains(0)
            && !t.cloexec.contains(0)) && (end.files.dom().contains(0) ==> end.files[0]
            == t.files[0]),
        p.stdout_w is None ==> (end.files.dom().contains(1) <==> t.files.dom().contains(1)
            && !t.cloexec.contains(1)) && (end.files.dom().contains(1) ==> end.files[1]
            == t.files[1]),
        p.stderr_w is None ==> (end.files.dom().contains(2) <==> t.files.dom().contains(2)
            && !t.cloexec.contains(2)) && (end.files.dom().contains(2) ==> end.files[2]
            == t.files[2]),
{
    law_forked_child_keeps_only_streams(t, p, group, cwd);
    lemma_streams_by_number(t, end, p);
}

} // verus!
