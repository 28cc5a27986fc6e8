use creche::envconfig::EnvironmentBuilder;
use creche::ioconfig::{FdOp, PipeToChild, Redirect};
use creche::utils::Argument;
use creche::ChildBuilder;

fn arg(s: &str) -> Argument {
    Argument::new(s.as_bytes().to_vec()).ok().unwrap()
}

fn bytes(a: &Argument) -> Vec<u8> {
    a.as_bytes().clone()
}

#[test]
fn new_builder_runs_executable_with_its_name_first() {
    let cmd = ChildBuilder::new(arg("ls"));
    let plan = cmd.spawn_plan();
    assert_eq!(bytes(&plan.bin), b"ls".to_vec());
    assert_eq!(plan.args.len(), 1);
    assert_eq!(bytes(&plan.args[0]), b"ls".to_vec());
    assert!(plan.child_ops.is_empty());
    assert!(plan.parent_ops.is_empty());
    assert!(plan.env.is_none());
    assert!(plan.chdir.is_none());
    assert!(plan.chroot.is_none());
}

#[test]
fn arguments_in_order() {
    let mut cmd = ChildBuilder::new(arg("tr"));
    cmd.arg(arg("[:lower:]")).arg(arg("[:upper:]"));
    let plan = cmd.spawn_plan();
    let args: Vec<Vec<u8>> = plan.args.iter().map(bytes).collect();
    assert_eq!(args, vec![b"tr".to_vec(), b"[:lower:]".to_vec(), b"[:upper:]".to_vec()]);
}

#[test]
fn redirects_override_pipes() {
    // stderr to stdout (priority 0), a pipe from stdout (priority 100): the
    // pipe is connected first, then the redirect, so stderr goes to the pipe
    let mut cmd = ChildBuilder::new(arg("cat"));
    cmd.redirect21();
    let read_end = cmd.pipe_from_stdout((7, 8));
    assert_eq!(read_end, 7);
    let plan = cmd.spawn_plan();
    assert_eq!(
        plan.child_ops,
        vec![FdOp::Dup2 { oldfd: 8, newfd: 1 }, FdOp::Dup2 { oldfd: 1, newfd: 2 }]
    );
    assert_eq!(plan.parent_ops, vec![FdOp::Close { fd: 8 }]);
}

#[test]
fn equal_priorities_keep_order_of_addition() {
    let mut cmd = ChildBuilder::new(arg("x"));
    cmd.config_io(Redirect::new(5, 6));
    cmd.config_io(Redirect::new_with_priority(3, 4, 50));
    cmd.config_io(Redirect::new(7, 8));
    cmd.config_io(Redirect::new_with_priority(9, 10, 50));
    let w = cmd.pipe_to_stdin((20, 21));
    assert_eq!(w, 21);
    let plan = cmd.spawn_plan();
    assert_eq!(
        plan.child_ops,
        vec![
            FdOp::Dup2 { oldfd: 20, newfd: 0 },
            FdOp::Dup2 { oldfd: 4, newfd: 3 },
            FdOp::Dup2 { oldfd: 10, newfd: 9 },
            FdOp::Dup2 { oldfd: 6, newfd: 5 },
            FdOp::Dup2 { oldfd: 8, newfd: 7 },
        ]
    );
    assert_eq!(plan.parent_ops, vec![FdOp::Close { fd: 20 }]);
}

#[test]
fn quiet_opens_null_device_once() {
    let mut cmd = ChildBuilder::new(arg("ls"));
    assert_eq!(cmd.devnull_fd(), None);
    cmd.quiet(33);
    assert_eq!(cmd.devnull_fd(), Some(33));
    // a second descriptor offered later is not taken
    cmd.quiet_stderr(44);
    assert_eq!(cmd.devnull_fd(), Some(33));
    let plan = cmd.spawn_plan();
    assert_eq!(
        plan.child_ops,
        vec![
            FdOp::Dup2 { oldfd: 33, newfd: 1 },
            FdOp::Dup2 { oldfd: 33, newfd: 2 },
            FdOp::Dup2 { oldfd: 33, newfd: 2 },
            FdOp::Close { fd: 33 },
            FdOp::Close { fd: 33 },
            FdOp::Close { fd: 33 },
        ]
    );
    assert_eq!(plan.parent_ops, vec![FdOp::Close { fd: 33 }]);
}

#[test]
fn quiet_stdout_only() {
    let mut cmd = ChildBuilder::new(arg("ls"));
    cmd.quiet_stdout(12);
    let plan = cmd.spawn_plan();
    assert_eq!(plan.child_ops, vec![FdOp::Dup2 { oldfd: 12, newfd: 1 }, FdOp::Close { fd: 12 }]);
}

#[test]
fn pipe_from_stderr_and_closes_after_fork() {
    let mut cmd = ChildBuilder::new(arg("ls"));
    cmd.fd_close_after_fork(90);
    let r = cmd.pipe_from_stderr((14, 15));
    assert_eq!(r, 14);
    let plan = cmd.spawn_plan();
    assert_eq!(plan.child_ops, vec![FdOp::Dup2 { oldfd: 15, newfd: 2 }, FdOp::Close { fd: 90 }]);
    assert_eq!(plan.parent_ops, vec![FdOp::Close { fd: 15 }]);
}

#[test]
fn first_environment_wins() {
    let mut e1 = EnvironmentBuilder::new();
    e1.clear().set(b"A".to_vec(), b"1".to_vec());
    let mut e2 = EnvironmentBuilder::new();
    e2.clear().set(b"B".to_vec(), b"2".to_vec());
    let mut cmd = ChildBuilder::new(arg("env"));
    cmd.set_env(e1.realize(&Vec::new()));
    cmd.set_env(e2.realize(&Vec::new()));
    let plan = cmd.spawn_plan();
    let env = plan.env.unwrap();
    assert_eq!(env.len(), 1);
    assert_eq!(bytes(&env[0]), b"A=1".to_vec());
}

#[test]
fn directories_are_passed_on() {
    let mut cmd = ChildBuilder::new(arg("pwd"));
    cmd.chdir(b"/tmp".to_vec()).chroot(b"/srv".to_vec());
    let plan = cmd.spawn_plan();
    assert_eq!(plan.chdir, Some(b"/tmp".to_vec()));
    assert_eq!(plan.chroot, Some(b"/srv".to_vec()));
}

#[test]
fn pipe_to_child_config_via_config_io() {
    let mut cmd = ChildBuilder::new(arg("sort"));
    let (w, c) = PipeToChild::new(0, (3, 4));
    assert_eq!(w, 4);
    cmd.config_io(c);
    let plan = cmd.spawn_plan();
    assert_eq!(plan.child_ops, vec![FdOp::Dup2 { oldfd: 3, newfd: 0 }]);
    assert_eq!(plan.parent_ops, vec![FdOp::Close { fd: 3 }]);
}
