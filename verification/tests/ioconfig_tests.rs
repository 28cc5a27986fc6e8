use creche::ioconfig::{
    interprocess_pipe, ConfigureIO, FdOp, IOConfig, PipeFromChild, PipeToChild, Redirect,
    RedirectToFd, DEFAULT_PRIORITY,
};

#[test]
fn redirect_dups_target_onto_source() {
    let c = Redirect::new(2, 1);
    assert_eq!(c.child_post_fork(), vec![FdOp::Dup2 { oldfd: 1, newfd: 2 }]);
    assert_eq!(c.priority(), 0);
}

#[test]
fn redirect_with_priority() {
    let mut c = Redirect::new_with_priority(1, 9, 10);
    assert_eq!(c.priority(), 10);
    assert!(c.parent_post_fork().is_empty());
    assert_eq!(c.child_post_fork(), vec![FdOp::Dup2 { oldfd: 9, newfd: 1 }]);
}

#[test]
fn pipe_from_child_hands_back_read_end() {
    let (fd, mut c) = PipeFromChild::new(1, (30, 31));
    assert_eq!(fd, 30);
    assert_eq!(c.priority(), DEFAULT_PRIORITY);
    assert_eq!(c.child_post_fork(), vec![FdOp::Dup2 { oldfd: 31, newfd: 1 }]);
    assert_eq!(c.parent_post_fork(), vec![FdOp::Close { fd: 31 }]);
    // the descriptor is gone: nothing more to close, and the child cannot connect it
    assert!(c.parent_post_fork().is_empty());
    assert_eq!(c.child_post_fork(), vec![FdOp::Panic]);
}

#[test]
fn pipe_to_child_hands_back_write_end() {
    let (fd, mut c) = PipeToChild::new(0, (40, 41));
    assert_eq!(fd, 41);
    assert_eq!(c.child_post_fork(), vec![FdOp::Dup2 { oldfd: 40, newfd: 0 }]);
    assert_eq!(c.parent_post_fork(), vec![FdOp::Close { fd: 40 }]);
}

#[test]
fn interprocess_pipe_ends() {
    let (mut r, mut w) = interprocess_pipe(0, 1, (50, 51));
    assert_eq!(r.child_post_fork(), vec![FdOp::Dup2 { oldfd: 50, newfd: 0 }]);
    assert_eq!(w.child_post_fork(), vec![FdOp::Dup2 { oldfd: 51, newfd: 1 }]);
    assert_eq!(r.priority(), DEFAULT_PRIORITY);
    assert_eq!(w.priority(), DEFAULT_PRIORITY);
    assert_eq!(r.parent_post_fork(), vec![FdOp::Close { fd: 50 }]);
    assert_eq!(w.parent_post_fork(), vec![FdOp::Close { fd: 51 }]);
    let mut rc = IOConfig::InterprocessPipeRead(r);
    assert!(rc.parent_post_fork().is_empty());
}

#[test]
fn redirect_to_fd_closes_owned_descriptor_in_child() {
    let mut c = RedirectToFd::new(60, 2);
    assert_eq!(
        c.child_post_fork(),
        vec![FdOp::Dup2 { oldfd: 60, newfd: 2 }, FdOp::CloseOrPanic { fd: 60 }]
    );
    assert_eq!(c.parent_post_fork(), vec![FdOp::Close { fd: 60 }]);
    assert_eq!(c.child_post_fork(), vec![FdOp::Panic]);
}
