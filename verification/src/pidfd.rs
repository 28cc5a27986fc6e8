use vstd::prelude::*;
use crate::error::{CrecheResult, Error, ErrorKind, Op};

verus! {

// The `CLD_*` codes below are those that Linux defines for every
// architecture.

/// `si_code` of a child that exited.
pub const CLD_EXITED: i32 = 1;

/// `si_code` of a child killed by a signal.
pub const CLD_KILLED: i32 = 2;

/// `si_code` of a child killed by a signal that dumped core.
pub const CLD_DUMPED: i32 = 3;

/// `si_code` of a traced child that trapped.
pub const CLD_TRAPPED: i32 = 4;

/// `si_code` of a child stopped by a signal.
pub const CLD_STOPPED: i32 = 5;

/// `si_code` of a stopped child continued by `SIGCONT`.
pub const CLD_CONTINUED: i32 = 6;

/// The signal a child sends its parent when it terminates (`SIGCHLD`). This
/// is its value on Linux for x86, x86-64, ARM, AArch64, RISC-V, PowerPC,
/// s390x and LoongArch; MIPS uses 18, and on a MIPS target this constant does
/// not match the system's.
pub const SIGCHLD: i32 = 17;

/// What happened to a child process.
#[derive(Debug, Clone, Copy, PartialEq, Eq, Structural)]
pub enum ChildStatusKind {
    /// Child process exited normally
    Exited,
    /// The child was killed by a signal
    Killed,
    /// The child dumped core
    Dumped,
    /// The child process was stopped by a signal
    Stopped,
    /// Traced child process has trapped
    Trapped,
    /// The child process received SIGCONT
    Continued,
    Unknown,
}

/// The kind of event that an `si_code` value of a `SIGCHLD` reports.
pub open spec fn status_kind(code: i32) -> ChildStatusKind {
    if code == CLD_EXITED {
        ChildStatusKind::Exited
    } else if code == CLD_KILLED {
        ChildStatusKind::Killed
    } else if code == CLD_DUMPED {
        ChildStatusKind::Dumped
    } else if code == CLD_STOPPED {
        ChildStatusKind::Stopped
    } else if code == CLD_TRAPPED {
        ChildStatusKind::Trapped
    } else if code == CLD_CONTINUED {
        ChildStatusKind::Continued
    } else {
        ChildStatusKind::Unknown
    }
}

/// The status of a child process as `waitid` reports it: what happened,
/// and the exit code or signal number.
#[derive(Debug, Clone, Copy)]
pub struct ChildStatus {
    kind: ChildStatusKind,
    status: i32,
}

impl View for ChildStatus {
    type V = (ChildStatusKind, i32);

    closed spec fn view(&self) -> (ChildStatusKind, i32) {
        (self.kind, self.status)
    }
}

impl ChildStatus {
    /// Decodes the `si_code` and `si_status` fields that `waitid` filled in.
    pub fn from_code(code: i32, status: i32) -> (r: Self)
        ensures
            r@ == (status_kind(code), status),
    {
        let kind = if code == CLD_EXITED {
            ChildStatusKind::Exited
        } else if code == CLD_KILLED {
            ChildStatusKind::Killed
        } else if code == CLD_DUMPED {
            ChildStatusKind::Dumped
        } else if code == CLD_STOPPED {
            ChildStatusKind::Stopped
        } else if code == CLD_TRAPPED {
            ChildStatusKind::Trapped
        } else if code == CLD_CONTINUED {
            ChildStatusKind::Continued
        } else {
            ChildStatusKind::Unknown
        };
        ChildStatus { kind, status }
    }
}

/// The values of the arguments of `clone3` other than the addresses that
/// the kernel writes to (which the caller supplies, all of them null but
/// that of the pidfd).
pub struct CloneArgs {
    pub flags: u64,
    pub exit_signal: u64,
    pub stack_size: usize,
    pub set_tid_size: usize,
    pub cgroup: u64,
}

impl CloneArgs {
    /// No flag; `SIGCHLD` on termination; no stack, thread ids or cgroup.
    pub fn new() -> (r: Self)
        ensures
            r.flags == 0,
            r.exit_signal == SIGCHLD as u64,
            r.stack_size == 0,
            r.set_tid_size == 0,
            r.cgroup == 0,
    {
        CloneArgs { flags: 0, exit_signal: 17, stack_size: 0, set_tid_size: 0, cgroup: 0 }
    }

    /// Sets the flags, given as the bits of a C `int` (the `CLONE_*`
    /// flags). Bits whose `int` is negative are widened with their sign, as
    /// the cast of a C `int` to a 64-bit unsigned value does.
    pub fn set_flags(&mut self, flags: i32)
        ensures
            final(self).flags == flags as u64,
            final(self).exit_signal == old(self).exit_signal,
            final(self).stack_size == old(self).stack_size,
            final(self).set_tid_size == old(self).set_tid_size,
            final(self).cgroup == old(self).cgroup,
    {
        self.flags = flags as u64;
    }

    /// Whether the parent gets `SIGCHLD` when the child terminates (else no
    /// signal).
    pub fn set_sigchld(&mut self, value: bool)
        ensures
            final(self).exit_signal == if value {
                SIGCHLD as u64
            } else {
                0
            },
            final(self).flags == old(self).flags,
            final(self).stack_size == old(self).stack_size,
            final(self).set_tid_size == old(self).set_tid_size,
            final(self).cgroup == old(self).cgroup,
    {
        if value {
            self.exit_signal = 17;
        } else {
            self.exit_signal = 0;
        }
    }

    /// Sets the signal sent to the parent when the child terminates
    /// (`SIGCHLD` by default).
    pub fn set_exit_signal(&mut self, signal: i32)
        ensures
            final(self).exit_signal == signal as u64,
            final(self).flags == old(self).flags,
            final(self).stack_size == old(self).stack_size,
            final(self).set_tid_size == old(self).set_tid_size,
            final(self).cgroup == old(self).cgroup,
    {
        self.exit_signal = signal as u64;
    }
}

impl Default for CloneArgs {
    /// See [`CloneArgs::new`].
    fn default() -> (r: Self)
        ensures
            r.flags == 0,
            r.exit_signal == SIGCHLD as u64,
            r.stack_size == 0,
            r.set_tid_size == 0,
            r.cgroup == 0,
    {
        CloneArgs::new()
    }
}

/// What a `clone3` call that asked for a pidfd amounts to, given what it
/// returned (`r`), the thread's error number right after it (`e`) and the
/// pidfd it stored: an `Errno` error of kind `Pidfd` and operation `Create`
/// where it failed, `None` in the child (which sees 0), and the child's pid
/// with its pidfd in the parent.
pub fn clone_outcome(r: i64, e: i32, pidfd: i32) -> (res: CrecheResult<Option<(i64, i32)>>)
    ensures
        res == (if r == -1 {
            Err(Error::Errno { kind: ErrorKind::Pidfd, op: Op::Create, errno: e })
        } else if r == 0 {
            Ok(None)
        } else {
            Ok(Some((r, pidfd)))
        }),
{
    if r == -1 {
        Err(Error::new(ErrorKind::Pidfd, Op::Create, e))
    } else if r == 0 {
        Ok(None)
    } else {
        Ok(Some((r, pidfd)))
    }
}

} // verus!
