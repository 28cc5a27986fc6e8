use creche::error::{Error, ErrorKind, Op};
use creche::pidfd::{
    clone_outcome,
    ChildStatus, ChildStatusKind, CloneArgs, CLD_CONTINUED, CLD_DUMPED, CLD_EXITED, CLD_KILLED,
    CLD_STOPPED, CLD_TRAPPED, SIGCHLD,
};

#[test]
fn constants_match_libc() {
    assert_eq!(CLD_EXITED, libc::CLD_EXITED);
    assert_eq!(CLD_KILLED, libc::CLD_KILLED);
    assert_eq!(CLD_DUMPED, libc::CLD_DUMPED);
    assert_eq!(CLD_TRAPPED, libc::CLD_TRAPPED);
    assert_eq!(CLD_STOPPED, libc::CLD_STOPPED);
    assert_eq!(CLD_CONTINUED, libc::CLD_CONTINUED);
    assert_eq!(SIGCHLD, libc::SIGCHLD);
}

#[test]
fn status_codes_decode() {
    assert_eq!(format!("{:?}", ChildStatus::from_code(1, 3)), "ChildStatus { kind: Exited, status: 3 }");
    assert_eq!(format!("{:?}", ChildStatus::from_code(2, 9)), "ChildStatus { kind: Killed, status: 9 }");
    assert_eq!(format!("{:?}", ChildStatus::from_code(3, 11)), "ChildStatus { kind: Dumped, status: 11 }");
    assert_eq!(format!("{:?}", ChildStatus::from_code(4, 5)), "ChildStatus { kind: Trapped, status: 5 }");
    assert_eq!(format!("{:?}", ChildStatus::from_code(5, 19)), "ChildStatus { kind: Stopped, status: 19 }");
    assert_eq!(format!("{:?}", ChildStatus::from_code(6, 18)), "ChildStatus { kind: Continued, status: 18 }");
    assert_eq!(format!("{:?}", ChildStatus::from_code(0, 0)), "ChildStatus { kind: Unknown, status: 0 }");
    assert!(ChildStatusKind::Exited == ChildStatusKind::Exited);
}

#[test]
fn clone_args_defaults() {
    let a = CloneArgs::new();
    assert_eq!(a.flags, 0);
    assert_eq!(a.exit_signal, 17);
    assert_eq!(a.stack_size, 0);
    assert_eq!(a.set_tid_size, 0);
    assert_eq!(a.cgroup, 0);
    let d = CloneArgs::default();
    assert_eq!(d.exit_signal, 17);
}

#[test]
fn clone_args_flags_and_signals() {
    let mut a = CloneArgs::new();
    a.set_flags(libc::CLONE_CHILD_CLEARTID | libc::CLONE_CHILD_SETTID | libc::CLONE_PIDFD);
    assert_eq!(a.flags, 0x1201000);
    a.set_flags(libc::CLONE_IO);
    assert_eq!(a.flags, 0xFFFF_FFFF_8000_0000);
    a.set_sigchld(false);
    assert_eq!(a.exit_signal, 0);
    a.set_sigchld(true);
    assert_eq!(a.exit_signal, 17);
    a.set_exit_signal(10);
    assert_eq!(a.exit_signal, 10);
    assert_eq!(a.flags, 0xFFFF_FFFF_8000_0000);
}

#[test]
fn clone_outcome_in_parent_child_and_failure() {
    assert!(clone_outcome(4242, 0, 9) == Ok(Some((4242, 9))));
    assert!(clone_outcome(0, 0, 9) == Ok(None));
    assert!(
        clone_outcome(-1, 38, 9)
            == Err(Error::Errno { kind: ErrorKind::Pidfd, op: Op::Create, errno: 38 })
    );
}
