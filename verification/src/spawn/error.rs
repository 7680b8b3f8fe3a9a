//! Errors of system operations, and what a call's reply means.

use vstd::prelude::*;
use vstd::string::*;
use vstd::utf8::*;
use crate::text;
use crate::text::push_decimal;

verus! {

/// No such process.
pub const ESRCH: i32 = 3;
/// Interrupted system call.
pub const EINTR: i32 = 4;
/// The operation would block.
pub const EAGAIN: i32 = 11;
/// The operation would block.
pub const EWOULDBLOCK: i32 = 11;
/// Invalid argument.
pub const EINVAL: i32 = 22;
/// Broken pipe.
pub const EPIPE: i32 = 32;

/// Error of a low-level system operation.
#[derive(Debug, Clone)]
pub enum SysError {
    /// A system call failed with the given error code.
    Syscall {
        /// The raw error code.
        code: i32,
        /// The name of the failed operation.
        op: String,
    },
}

impl View for SysError {
    type V = (i32, Seq<char>);

    open spec fn view(&self) -> (i32, Seq<char>) {
        (self->code, self->op@)
    }
}

impl SysError {
    /// Makes the error of a failed operation.
    pub fn sys(code: i32, op: &str) -> (r: Self)
        ensures
            r@ == (code, op@),
    {
        SysError::Syscall { code, op: op.to_owned() }
    }

    /// The raw error code.
    pub fn raw_os_error(&self) -> (r: Option<i32>)
        ensures
            r == Some(self@.0),
    {
        match self {
            SysError::Syscall { code, .. } => Some(*code),
        }
    }

    /// The error as a person reads it: `<op> failed (code=<code>)`.
    pub fn message(&self) -> (r: String)
        ensures
            r@ == self@.1 + " failed (code="@ + text::decimal(self@.0 as int) + ")"@,
    {
        match self {
            SysError::Syscall { code, op } => {
                let mut out: String = op.clone();
                out.append(" failed (code=");
                push_decimal(&mut out, *code);
                out.append(")");
                out
            },
        }
    }
}

/// Whether `r` is the failure of `op` with error `code`.
pub open spec fn failed_with<T>(r: Result<T, SysError>, code: i32, op: Seq<char>) -> bool {
    r matches Err(e) && e@ == (code, op)
}

#[verifier::external_type_specification]
#[verifier::external_body]
pub struct ExIoError(std::io::Error);

/// `std::io::Error::last_os_error`: the error that the calling thread's last
/// failed call left behind. Which one that is depends on the machine, so
/// nothing is claimed of it.
pub assume_specification[ std::io::Error::last_os_error ]() -> std::io::Error;

/// `std::io::Error::raw_os_error`: the error number, where the error came from
/// the operating system. Nothing is claimed of the number.
pub assume_specification[ std::io::Error::raw_os_error ](e: &std::io::Error) -> Option<i32>;

/// The number of an error, given what the error itself gives for it: 0 where it
/// gives none.
pub open spec fn number_or_zero(raw: Option<i32>) -> i32 {
    match raw {
        Some(code) => code,
        None => 0,
    }
}

/// The number of an error, given what the error itself gives for it.
pub fn error_number(raw: Option<i32>) -> (r: i32)
    ensures
        r == number_or_zero(raw),
{
    raw.unwrap_or(0)
}

/// Whether `code` can come of asking `std::io::Error::last_os_error` for an error
/// and that error for its number.
pub open spec fn is_last_error(code: i32) -> bool {
    exists|e: std::io::Error, raw: Option<i32>|
        #![trigger call_ensures(std::io::Error::raw_os_error, (&e,), raw)]
        call_ensures(std::io::Error::last_os_error, (), e) && call_ensures(
            std::io::Error::raw_os_error,
            (&e,),
            raw,
        ) && code == number_or_zero(raw)
}

/// The error number that the calling thread's last failed call left behind.
pub fn errno() -> (r: i32)
    ensures
        is_last_error(r),
{
    let e = std::io::Error::last_os_error();
    error_number(e.raw_os_error())
}

/// What a call that returns -1 on failure came to, given its error number.
pub fn syscall_result(ret: i32, code: i32, op: &str) -> (r: Result<(), SysError>)
    ensures
        ret != -1 ==> r is Ok,
        ret == -1 ==> failed_with(r, code, op@),
{
    if ret == -1 {
        Err(SysError::sys(code, op))
    } else {
        Ok(())
    }
}

/// What the call that just returned `ret` came to: -1 is a failure, whose
/// error number is taken from the thread's last error.
pub fn syscall_ret(ret: i32, op: &str) -> (r: Result<(), SysError>)
    ensures
        ret != -1 ==> r is Ok,
        ret == -1 ==> (r matches Err(e) && is_last_error(e@.0) && e@.1 == op@),
{
    if ret == -1 {
        syscall_result(ret, errno(), op)
    } else {
        Ok(())
    }
}

/// What a call that returns its error number came to.
pub fn posix_ret(ret: i32, op: &str) -> (r: Result<(), SysError>)
    ensures
        ret == 0 ==> r is Ok,
        ret != 0 ==> failed_with(r, ret, op@),
{
    if ret != 0 {
        Err(SysError::sys(ret, op))
    } else {
        Ok(())
    }
}

/// What a system call left behind.
#[derive(Clone, Copy, Debug, PartialEq, Eq, Structural)]
pub struct Reply {
    /// The value that it returned.
    pub ret: isize,
    /// The thread's error number after it.
    pub code: i32,
}

/// What to do once a call has replied.
#[derive(Clone, Debug)]
pub enum Step<T> {
    /// Make the call again.
    Retry,
    /// The operation is over.
    Done(T),
}

/// An error is its code and the name of its operation, and a failure is an error
/// with just these.
pub proof fn law_errors_say_what_failed<T>(
    r: Result<T, SysError>,
    e: SysError,
    code: i32,
    op: Seq<char>,
)
    ensures
        e@ == (e->code, e->op@),
        failed_with(r, code, op) <==> r is Err && r->Err_0->code == code && r->Err_0->op@ == op,
{
}

/// The number of an error is the one that it gives, and 0 exactly where it gives
/// none or gives 0.
pub proof fn law_error_numbers_are_kept(code: i32, raw: Option<i32>)
    ensures
        number_or_zero(Some(code)) == code,
        number_or_zero(None) == 0,
        raw is Some ==> Some(number_or_zero(raw)) == raw,
{
}

/// The message of an error says what failed and with which number: it starts with
/// the operation, the number can be read out of it, and two errors of one operation
/// read the same only where they have the same number.
pub proof fn law_messages_tell_errors_apart(a: SysError, b: SysError, of_a: String, of_b: String)
    requires
        call_ensures(SysError::message, (&a,), of_a),
        call_ensures(SysError::message, (&b,), of_b),
        a->op@ == b->op@,
    ensures
        of_a@.len() > a->op@.len(),
        of_a@.take(a->op@.len() as int) == a->op@,
        of_a@.last() == ')',
        text::i32_of(
            encode_utf8(of_a@.subrange(14 + a->op@.len() as int, of_a@.len() - 1)),
        ) == Some(a->code),
        of_a@ == of_b@ <==> a->code == b->code,
{
    reveal_strlit(")");
    reveal_strlit(" failed (code=");
    let before = a->op@ + " failed (code="@;
    let number_a = text::decimal(a->code as int);
    let number_b = text::decimal(b->code as int);
    assert(of_a@.take(a->op@.len() as int) =~= a->op@);
    text::law_decimal_is_read_back(a->code);
    text::law_decimal_is_read_back(b->code);
    assert(of_a@.subrange(14 + a->op@.len() as int, of_a@.len() - 1) =~= number_a);
    assert(of_a@.drop_last().skip(before.len() as int) =~= number_a);
    assert(of_b@.drop_last().skip(before.len() as int) =~= number_b);
}

/// A call that reports failure by -1 has failed exactly where it returns that; one
/// that returns its error number has failed exactly where that is not 0. The
/// failure is that of the operation, with the number that was reported.
pub proof fn law_failures_are_what_was_reported(
    ret: i32,
    code: i32,
    op: &str,
    call: Result<(), SysError>,
    posix: Result<(), SysError>,
)
    requires
        call_ensures(syscall_result, (ret, code, op), call),
        call_ensures(posix_ret, (ret, op), posix),
    ensures
        call is Err <==> ret == -1,
        call matches Err(e) ==> e->code == code && e->op@ == op@,
        posix is Err <==> ret != 0,
        posix matches Err(e) ==> e->code == ret && e->op@ == op@,
{
}

} // verus!
