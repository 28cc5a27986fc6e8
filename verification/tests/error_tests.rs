use creche::error::{
    errno, errno_result, transfer_result, wrap_errno, wrap_syscall, CrecheResult, Error, ErrorKind, Op,
    EAGAIN, EWOULDBLOCK,
};

#[test]
fn error_new_builds_errno_variant() {
    let e = Error::new(ErrorKind::Pipe, Op::Create, 24);
    assert!(e == Error::Errno { kind: ErrorKind::Pipe, op: Op::Create, errno: 24 });
    assert!(!e.would_block());
    assert!(!e.eof());
}

#[test]
fn error_predicates() {
    assert!(Error::WouldBlock.would_block());
    assert!(Error::WouldBlock.eagain());
    assert!(!Error::EOF.eagain());
    assert!(Error::EOF.eof());
    assert!(!Error::Timeout.eof());
    assert!(!Error::Timeout.would_block());
}

#[test]
fn error_into_result() {
    let r: CrecheResult<i32> = Error::EOF.into();
    assert!(r == Err(Error::EOF));
}

#[test]
fn errno_constants_match_libc() {
    assert_eq!(EAGAIN, libc::EAGAIN);
    assert_eq!(EWOULDBLOCK, libc::EWOULDBLOCK);
}

#[test]
fn wrap_errno_passes_values_through() {
    assert!(wrap_errno(ErrorKind::Pidfd, Op::Wait, 0) == Ok(0));
    assert!(wrap_errno(ErrorKind::Pidfd, Op::Wait, 42) == Ok(42));
    assert!(wrap_syscall(ErrorKind::Pidfd, Op::Create, 1234) == Ok(1234));
}

#[test]
fn wrap_errno_reports_failure() {
    // a call on a descriptor that is not open fails with EBADF
    assert!(nix::unistd::close(-1).is_err());
    match wrap_errno(ErrorKind::Pipe, Op::Create, -1) {
        Err(Error::Errno { kind, op, errno }) => {
            assert!(kind == ErrorKind::Pipe);
            assert!(op == Op::Create);
            assert_eq!(errno, libc::EBADF);
        }
        _ => panic!("expected an errno error"),
    }
}

#[test]
fn wrap_syscall_reports_failure() {
    match wrap_syscall(ErrorKind::Pidfd, Op::Signal, -1) {
        Err(Error::Errno { kind, op, .. }) => {
            assert!(kind == ErrorKind::Pidfd);
            assert!(op == Op::Signal);
        }
        _ => panic!("expected an errno error"),
    }
}

#[test]
fn errno_after_failed_call() {
    assert!(nix::unistd::close(-1).is_err());
    assert_eq!(errno(), libc::EBADF);
}

#[test]
fn transfer_would_block() {
    assert!(transfer_result(ErrorKind::Pipe, Op::Read, -1, EAGAIN) == Err(Error::WouldBlock));
    assert!(transfer_result(ErrorKind::Pipe, Op::Write, -1, EWOULDBLOCK) == Err(Error::WouldBlock));
}

#[test]
fn transfer_other_error() {
    assert!(
        transfer_result(ErrorKind::Pipe, Op::Read, -1, 9)
            == Err(Error::Errno { kind: ErrorKind::Pipe, op: Op::Read, errno: 9 })
    );
}

#[test]
fn transfer_end_of_file() {
    assert!(transfer_result(ErrorKind::Pipe, Op::Read, 0, 0) == Err(Error::EOF));
}

#[test]
fn transfer_count() {
    assert!(transfer_result(ErrorKind::Pipe, Op::Write, 17, 0) == Ok(17));
}

#[test]
fn errno_result_carries_the_error_number() {
    assert!(
        errno_result(ErrorKind::Pidfd, Op::Create, -1, 38)
            == Err(Error::Errno { kind: ErrorKind::Pidfd, op: Op::Create, errno: 38 })
    );
    assert!(errno_result(ErrorKind::Pipe, Op::Wait, 5, 38) == Ok(5));
    assert!(errno_result(ErrorKind::Pipe, Op::Wait, 0, 0) == Ok(0));
}
