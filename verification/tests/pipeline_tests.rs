use creche::envconfig::EnvironmentBuilder;
use creche::ioconfig::FdOp;
use creche::utils::Argument;
use creche::{ChildBuilder, PipelineChildren, SimplePipelineBuilder};

fn arg(s: &str) -> Argument {
    Argument::new(s.as_bytes().to_vec()).ok().unwrap()
}

fn name(b: ChildBuilder) -> (String, Vec<FdOp>, Vec<FdOp>, Option<Vec<String>>) {
    let plan = b.spawn_plan();
    let env = plan.env.map(|e| {
        e.into_iter().map(|a| String::from_utf8(a.into_value()).unwrap()).collect()
    });
    (String::from_utf8(plan.bin.into_value()).unwrap(), plan.child_ops, plan.parent_ops, env)
}

#[test]
fn three_stage_pipeline_is_wired_and_started_last_first() {
    let mut p = SimplePipelineBuilder::new();
    p.add_builder(ChildBuilder::new(arg("ls")))
        .add_builder(ChildBuilder::new(arg("sort")))
        .add_builder(ChildBuilder::new(arg("tr")));
    let started = p.spawn(vec![(10, 11), (12, 13)]);
    let v: Vec<_> = started.into_iter().map(name).collect();
    assert_eq!(v.len(), 3);
    // started last to first
    assert_eq!(v[0].0, "tr");
    assert_eq!(v[1].0, "sort");
    assert_eq!(v[2].0, "ls");
    // tr reads from the second pipe
    assert_eq!(v[0].1, vec![FdOp::Dup2 { oldfd: 12, newfd: 0 }]);
    assert_eq!(v[0].2, vec![FdOp::Close { fd: 12 }]);
    // sort writes to the second pipe and reads from the first
    assert_eq!(
        v[1].1,
        vec![FdOp::Dup2 { oldfd: 13, newfd: 1 }, FdOp::Dup2 { oldfd: 10, newfd: 0 }]
    );
    assert_eq!(v[1].2, vec![FdOp::Close { fd: 13 }, FdOp::Close { fd: 10 }]);
    // ls writes to the first pipe
    assert_eq!(v[2].1, vec![FdOp::Dup2 { oldfd: 11, newfd: 1 }]);
    assert_eq!(v[2].2, vec![FdOp::Close { fd: 11 }]);
}

#[test]
fn single_child_pipeline_is_not_piped() {
    let mut p = SimplePipelineBuilder::new();
    p.add_builder(ChildBuilder::new(arg("ls")));
    let v: Vec<_> = p.spawn(vec![]).into_iter().map(name).collect();
    assert_eq!(v.len(), 1);
    assert!(v[0].1.is_empty());
    assert!(v[0].2.is_empty());
}

#[test]
fn quiet_redirects_stderr_of_children_added_so_far() {
    let mut p = SimplePipelineBuilder::new();
    p.add_builder(ChildBuilder::new(arg("a"))).quiet(70);
    p.add_builder(ChildBuilder::new(arg("b"))).quiet(71);
    let v: Vec<_> = p.spawn(vec![(1000, 1001)]).into_iter().map(name).collect();
    // b (started first) only got the redirect of the second call, on the
    // null device opened by the first call
    assert_eq!(
        v[0].1,
        vec![FdOp::Dup2 { oldfd: 1000, newfd: 0 }, FdOp::Dup2 { oldfd: 70, newfd: 2 }]
    );
    assert_eq!(
        v[1].1,
        vec![
            FdOp::Dup2 { oldfd: 1001, newfd: 1 },
            FdOp::Dup2 { oldfd: 70, newfd: 2 },
            FdOp::Dup2 { oldfd: 70, newfd: 2 },
        ]
    );
}

#[test]
fn pipeline_environment_fills_children_without_one() {
    let mut own = EnvironmentBuilder::new();
    own.clear().set(b"OWN".to_vec(), b"1".to_vec());
    let mut shared = EnvironmentBuilder::new();
    shared.clear().set(b"SHARED".to_vec(), b"1".to_vec());
    let mut a = ChildBuilder::new(arg("a"));
    a.set_env(own.realize(&vec![]));
    let b = ChildBuilder::new(arg("b"));
    let mut p = SimplePipelineBuilder::new();
    p.add_builder(a).add_builder(b).set_env(shared.realize(&vec![]));
    let v: Vec<_> = p.spawn(vec![(5, 6)]).into_iter().map(name).collect();
    assert_eq!(v[0].0, "b");
    assert_eq!(v[0].3, Some(vec!["SHARED=1".to_string()]));
    assert_eq!(v[1].0, "a");
    assert_eq!(v[1].3, Some(vec!["OWN=1".to_string()]));
}

#[test]
fn pipeline_children_in_order_of_addition() {
    // started in the reverse order of addition
    let mut children = PipelineChildren::new(vec!["third", "second", "first"]);
    assert_eq!(children.children(), &["first", "second", "third"]);
    assert_eq!(children.take_for_wait(), Some(vec!["first", "second", "third"]));
    assert!(children.children().is_empty());
    assert_eq!(children.take_for_wait(), None);
}

#[test]
fn repeated_quiet_uses_one_null_device() {
    let mut p = SimplePipelineBuilder::new();
    p.add_builder(ChildBuilder::new(arg("a")));
    p.quiet(70).quiet(71).quiet(72);
    assert_eq!(p.devnull_fd(), Some(70));
    p.add_builder(ChildBuilder::new(arg("b")));
    let v: Vec<_> = p.spawn(vec![(1, 2)]).into_iter().map(name).collect();
    assert_eq!(v[0].0, "b");
    assert_eq!(v[0].1, vec![FdOp::Dup2 { oldfd: 1, newfd: 0 }]);
    assert_eq!(
        v[1].1,
        vec![
            FdOp::Dup2 { oldfd: 2, newfd: 1 },
            FdOp::Dup2 { oldfd: 70, newfd: 2 },
            FdOp::Dup2 { oldfd: 70, newfd: 2 },
            FdOp::Dup2 { oldfd: 70, newfd: 2 },
        ]
    );
}
