use vstd::prelude::*;

verus! {

/// Result type of the raw system call helpers.
pub type CrecheResult<T> = Result<T, Error>;

/// The error number that Linux reports for a call that would block
/// (`EAGAIN`): its value on the Linux architectures that `libc` defines it
/// for (x86, x86-64, ARM, AArch64, RISC-V, PowerPC, MIPS, SPARC, s390x,
/// LoongArch).
pub const EAGAIN: i32 = 11;

/// The same error number under its other name (`EWOULDBLOCK`), with the
/// same assumption about the target.
pub const EWOULDBLOCK: i32 = EAGAIN;

/// Errors reported by the raw system call helpers.
#[derive(Clone, Copy, PartialEq, Eq, Structural, Debug)]
pub enum Error {
    /// A read or write reached end of file.
    EOF,
    /// A non-blocking read or write would have blocked.
    WouldBlock,
    /// An operation timed out.
    Timeout,
    /// A system call failed with an error number.
    Errno { kind: ErrorKind, op: Op, errno: i32 },
}

/// The kind of object an operation acted on.
#[non_exhaustive]
#[derive(Debug, Clone, Copy, PartialEq, Eq, Structural)]
pub enum ErrorKind {
    Pidfd,
    Pipe,
}

/// The operation that failed.
#[non_exhaustive]
#[derive(Debug, Clone, Copy, PartialEq, Eq, Structural)]
pub enum Op {
    Create,
    Read,
    Write,
    Wait,
    Signal,
}

impl Error {
    /// Returns a new `Errno` error.
    pub fn new(kind: ErrorKind, operation: Op, errno: i32) -> (r: Self)
        ensures
            r == (Error::Errno { kind, op: operation, errno }),
    {
        Error::Errno { kind, op: operation, errno }
    }

    /// Whether this is the error of an operation that would have blocked.
    pub fn would_block(&self) -> (r: bool)
        ensures
            r == (*self is WouldBlock),
    {
        match self {
            Error::WouldBlock => true,
            _ => false,
        }
    }

    /// Another name for [`Error::would_block`].
    pub fn eagain(&self) -> (r: bool)
        ensures
            r == (*self is WouldBlock),
    {
        self.would_block()
    }

    /// Whether this is the end-of-file error.
    pub fn eof(&self) -> (r: bool)
        ensures
            r == (*self is EOF),
    {
        match self {
            Error::EOF => true,
            _ => false,
        }
    }
}

impl<T> From<Error> for Result<T, Error> {
    /// The error as a failed result.
    fn from(value: Error) -> (r: Self)
        ensures
            r == Err::<T, Error>(value),
    {
        Err(value)
    }
}

impl<T> vstd::std_specs::convert::FromSpecImpl<Error> for Result<T, Error> {
    open spec fn obeys_from_spec() -> bool {
        true
    }

    open spec fn from_spec(v: Error) -> Self {
        Err(v)
    }
}

#[verifier::external_type_specification]
#[verifier::external_body]
pub struct ExIoError(std::io::Error);

/// `std::io::Error::last_os_error`: an error holding the error number of the
/// last failed system call of this thread. Nothing is stated of it: it
/// depends on the thread's state.
#[verifier::external_body]
fn last_os_error() -> std::io::Error {
    std::io::Error::last_os_error()
}

/// `std::io::Error::raw_os_error`: the operating system's error number that
/// the error carries, if any. Nothing is stated of it: the error is opaque
/// here.
#[verifier::external_body]
fn raw_os_error(e: &std::io::Error) -> Option<i32> {
    e.raw_os_error()
}

/// The error number of the last failed system call of this thread; 0 where
/// the standard library reports none.
pub fn errno() -> i32 {
    let e = last_os_error();
    match raw_os_error(&e) {
        Some(n) => n,
        None => 0,
    }
}

/// Classifies the return value of a system call that reports failure as
/// -1, where `e` is the thread's error number read right after the call.
pub fn errno_result(kind: ErrorKind, operation: Op, value: i64, e: i32) -> (r: CrecheResult<i64>)
    ensures
        r == (if value == -1 {
            Err(Error::Errno { kind, op: operation, errno: e })
        } else {
            Ok(value)
        }),
{
    if value == -1 {
        Err(Error::new(kind, operation, e))
    } else {
        Ok(value)
    }
}

/// Turns the return value of a system call that reports failure as -1
/// into a result: the value itself, or an `Errno` error of the given kind
/// and operation carrying the thread's error number (see
/// [`errno_result`], which states the outcome for a given error number).
pub fn wrap_errno(kind: ErrorKind, operation: Op, value: i32) -> (r: CrecheResult<i32>)
    ensures
        value != -1 ==> r == Ok::<i32, Error>(value),
        value == -1 ==> (r matches Err(Error::Errno { kind: k, op: o, errno: _ }) && k == kind
            && o == operation),
{
    match errno_result(kind, operation, value as i64, if value == -1 { errno() } else { 0 }) {
        Ok(_) => Ok(value),
        Err(e) => Err(e),
    }
}

/// [`wrap_errno`] for system calls that return a 64-bit value.
pub fn wrap_syscall(kind: ErrorKind, operation: Op, value: i64) -> (r: CrecheResult<i64>)
    ensures
        value != -1 ==> r == Ok::<i64, Error>(value),
        value == -1 ==> (r matches Err(Error::Errno { kind: k, op: o, errno: _ }) && k == kind
            && o == operation),
{
    let e = if value == -1 {
        errno()
    } else {
        0
    };
    errno_result(kind, operation, value, e)
}

/// What a read or write call that returned `n` amounts to, `e` being the
/// thread's error number after the call: a would-block error where the
/// call failed with `EAGAIN`/`EWOULDBLOCK`, an `Errno` error where it
/// failed otherwise, end of file where it transferred nothing, and the
/// count of bytes transferred otherwise.
pub open spec fn spec_transfer_result(kind: ErrorKind, operation: Op, n: isize, e: i32) -> CrecheResult<isize> {
    if n == -1 {
        if e == EAGAIN || e == EWOULDBLOCK {
            Err(Error::WouldBlock)
        } else {
            Err(Error::Errno { kind, op: operation, errno: e })
        }
    } else if n == 0 {
        Err(Error::EOF)
    } else {
        Ok(n)
    }
}

/// A read or write that transferred `n > 0` bytes gives `Ok(n)`; end of file
/// is reported exactly when nothing was transferred; a failed call (-1)
/// gives an error other than end of file, would-block exactly for
/// `EAGAIN`/`EWOULDBLOCK`.
pub proof fn lemma_transfer_classes(kind: ErrorKind, operation: Op, n: isize, e: i32)
    ensures
        n > 0 ==> spec_transfer_result(kind, operation, n, e) == Ok::<isize, Error>(n),
        (spec_transfer_result(kind, operation, n, e) == Err::<isize, Error>(Error::EOF)) <==> n == 0,
        n == -1 ==> spec_transfer_result(kind, operation, n, e) is Err,
        n == -1 ==> ((spec_transfer_result(kind, operation, n, e) == Err::<isize, Error>(
            Error::WouldBlock,
        )) <==> (e == 11)),
        spec_transfer_result(kind, operation, n, e) matches Ok(m) ==> m == n && n != 0 && n != -1,
{
}

/// Classifies the outcome of a read or write call that returned `n`, where
/// `e` is the thread's error number read right after the call.
pub fn transfer_result(kind: ErrorKind, operation: Op, n: isize, e: i32) -> (r: CrecheResult<isize>)
    ensures
        r == spec_transfer_result(kind, operation, n, e),
{
    if n == -1 {
        if e == EAGAIN || e == EWOULDBLOCK {
            Err(Error::WouldBlock)
        } else {
            Err(Error::new(kind, operation, e))
        }
    } else if n == 0 {
        Err(Error::EOF)
    } else {
        Ok(n)
    }
}

} // verus!
