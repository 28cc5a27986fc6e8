use vstd::prelude::*;
use crate::envconfig::{Environment, arguments_view};
use crate::ioconfig::{
    ConfigureIO,
    FdOp,
    IOConfig,
    IoConfigView,
    PipeFromChild,
    PipeToChild,
    Redirect,
    priority_order,
    sort_by_priority,
    views,
};
use crate::utils::Argument;

verus! {

/// Priority of the redirections to the null device: below that of pipes, so
/// that they override them.
pub const QUIET_PRIORITY: i32 = 10;

/// The plain values of a [`ChildBuilder`].
pub struct ChildBuilderView {
    pub bin: Seq<u8>,
    pub args: Seq<Seq<u8>>,
    pub io_configs: Seq<IoConfigView>,
    pub devnull: Option<i32>,
    pub fds_to_close: Seq<i32>,
    pub env: Option<Seq<Seq<u8>>>,
    pub chdir: Option<Seq<u8>>,
    pub chroot: Option<Seq<u8>>,
}

/// The operations the child performs for configurations applied in the
/// order of `s`.
pub open spec fn child_ops_of(s: Seq<IoConfigView>) -> Seq<FdOp> {
    s.map_values(|c: IoConfigView| c.child_ops()).flatten()
}

/// The operations the parent performs for configurations applied in the
/// order of `s`.
pub open spec fn parent_ops_of(s: Seq<IoConfigView>) -> Seq<FdOp> {
    s.map_values(|c: IoConfigView| c.parent_ops()).flatten()
}

/// Closing each descriptor of `fds`, ignoring failures.
pub open spec fn closes_of(fds: Seq<i32>) -> Seq<FdOp> {
    fds.map_values(|fd: i32| FdOp::Close { fd })
}

/// What is done around the fork that starts a child process configured by
/// a [`ChildBuilder`].
///
/// The parent performs `parent_ops` after the fork. The child performs
/// `child_ops`, then changes its root directory to `chroot` and its working
/// directory to `chdir` where they are set (panicking where that fails),
/// then executes `bin` with `args`, in the environment `env` where it is
/// set and in the parent's environment otherwise.
pub struct SpawnPlan {
    pub parent_ops: Vec<FdOp>,
    pub child_ops: Vec<FdOp>,
    pub chroot: Option<Vec<u8>>,
    pub chdir: Option<Vec<u8>>,
    pub bin: Argument,
    pub args: Vec<Argument>,
    pub env: Option<Environment>,
}

/// Configuration of a child process: the executable and its arguments,
/// file descriptor configurations, the environment, and directories.
pub struct ChildBuilder {
    bin: Argument,
    args: Vec<Argument>,
    io_configs: Vec<IOConfig>,
    devnull: Option<i32>,
    /// Descriptors to close in the child after the fork, such as those
    /// without the close-on-exec flag.
    fds_to_close: Vec<i32>,
    env: Option<Environment>,
    chdir: Option<Vec<u8>>,
    chroot: Option<Vec<u8>>,
}

/// The plain values of an optional byte string.
pub open spec fn opt_bytes(o: Option<Vec<u8>>) -> Option<Seq<u8>> {
    match o {
        Some(b) => Some(b@),
        None => None,
    }
}

/// The plain values of an optional environment.
pub open spec fn opt_env(o: Option<Environment>) -> Option<Seq<Seq<u8>>> {
    match o {
        Some(e) => Some(arguments_view(e@)),
        None => None,
    }
}

impl View for ChildBuilder {
    type V = ChildBuilderView;

    closed spec fn view(&self) -> ChildBuilderView {
        ChildBuilderView {
            bin: self.bin.view(),
            args: arguments_view(self.args@),
            io_configs: views(self.io_configs@),
            devnull: self.devnull,
            fds_to_close: self.fds_to_close@,
            env: opt_env(self.env),
            chdir: opt_bytes(self.chdir),
            chroot: opt_bytes(self.chroot),
        }
    }
}

proof fn lemma_arguments_push(s: Seq<Argument>, a: Argument)
    ensures
        arguments_view(s.push(a)) == arguments_view(s).push(a.view()),
{
    assert(arguments_view(s.push(a)) =~= arguments_view(s).push(a.view()));
}

proof fn lemma_views_push(s: Seq<IOConfig>, c: IOConfig)
    ensures
        views(s.push(c)) == views(s).push(c.view()),
{
    assert(views(s.push(c)) =~= views(s).push(c.view()));
}

impl ChildBuilder {
    /// A builder for running the executable at `path`; the executable's name
    /// is also the first argument.
    pub fn new(path: Argument) -> (r: Self)
        ensures
            r@ == (ChildBuilderView {
                bin: path.view(),
                args: seq![path.view()],
                io_configs: Seq::empty(),
                devnull: None,
                fds_to_close: Seq::empty(),
                env: None,
                chdir: None,
                chroot: None,
            }),
    {
        let bin = path.duplicate();
        let r = ChildBuilder {
            bin,
            args: vec![path],
            io_configs: Vec::new(),
            devnull: None,
            fds_to_close: Vec::new(),
            env: None,
            chdir: None,
            chroot: None,
        };
        assert(r@.args =~= seq![bin.view()]);
        assert(r@.io_configs =~= Seq::<IoConfigView>::empty());
        assert(r@.fds_to_close =~= Seq::<i32>::empty());
        r
    }

    /// Adds an argument.
    pub fn arg(&mut self, arg: Argument) -> (r: &mut Self)
        ensures
            r@ == (ChildBuilderView { args: old(self)@.args.push(arg.view()), ..old(self)@ }),
            *final(self) == *final(r),
    {
        proof {
            lemma_arguments_push(self.args@, arg);
        }
        self.args.push(arg);
        self
    }

    /// Adds a file descriptor configuration (see the `ioconfig` module).
    pub fn config_io(&mut self, io_mut: IOConfig) -> (r: &mut Self)
        ensures
            r@ == (ChildBuilderView {
                io_configs: old(self)@.io_configs.push(io_mut.view()),
                ..old(self)@
            }),
            *final(self) == *final(r),
    {
        proof {
            lemma_views_push(self.io_configs@, io_mut);
        }
        self.io_configs.push(io_mut);
        self
    }

    /// Sets the environment of the child process, on the first call only:
    /// later calls leave it as it is. This lets a child in a pipeline keep an
    /// environment of its own where the pipeline sets one for all.
    pub fn set_env(&mut self, env: Environment) -> (r: &mut Self)
        ensures
            r@ == (ChildBuilderView {
                env: if old(self)@.env is None {
                    Some(arguments_view(env@))
                } else {
                    old(self)@.env
                },
                ..old(self)@
            }),
            *final(self) == *final(r),
    {
        if self.env.is_none() {
            self.env = Some(env);
        }
        self
    }

    /// The child changes its root directory to `path` after the fork (which
    /// takes the CAP_SYS_CHROOT capability).
    pub fn chroot(&mut self, path: Vec<u8>) -> (r: &mut Self)
        ensures
            r@ == (ChildBuilderView { chroot: Some(path@), ..old(self)@ }),
            *final(self) == *final(r),
    {
        self.chroot = Some(path);
        self
    }

    /// The child changes its working directory to `path` after the fork,
    /// and after the change of root directory where there is one.
    pub fn chdir(&mut self, path: Vec<u8>) -> (r: &mut Self)
        ensures
            r@ == (ChildBuilderView { chdir: Some(path@), ..old(self)@ }),
            *final(self) == *final(r),
    {
        self.chdir = Some(path);
        self
    }

    /// The child closes `fd` after the fork, just before `exec`. The
    /// parent's descriptors are not affected.
    pub fn fd_close_after_fork(&mut self, fd: i32) -> (r: &mut Self)
        ensures
            r@ == (ChildBuilderView {
                fds_to_close: old(self)@.fds_to_close.push(fd),
                ..old(self)@
            }),
            *final(self) == *final(r),
    {
        self.fds_to_close.push(fd);
        self
    }

    /// Takes a freshly created pipe `(read end, write end)`: its read end is
    /// connected to the child's stdin, and its write end is returned.
    pub fn pipe_to_stdin(&mut self, pipe: (i32, i32)) -> (r: i32)
        ensures
            r == pipe.1,
            final(self)@ == (ChildBuilderView {
                io_configs: old(self)@.io_configs.push(
                    IoConfigView::PipeToChild { child_fd: 0, pipe_r: Some(pipe.0) },
                ),
                ..old(self)@
            }),
    {
        let (fd, io_config) = PipeToChild::new(0, pipe);
        self.config_io(io_config);
        fd
    }

    /// Takes a freshly created pipe `(read end, write end)`: its write end is
    /// connected to the child's stdout, and its read end is returned.
    pub fn pipe_from_stdout(&mut self, pipe: (i32, i32)) -> (r: i32)
        ensures
            r == pipe.0,
            final(self)@ == (ChildBuilderView {
                io_configs: old(self)@.io_configs.push(
                    IoConfigView::PipeFromChild { child_fd: 1, pipe_w: Some(pipe.1) },
                ),
                ..old(self)@
            }),
    {
        let (fd, io_config) = PipeFromChild::new(1, pipe);
        self.config_io(io_config);
        fd
    }

    /// Takes a freshly created pipe `(read end, write end)`: its write end is
    /// connected to the child's stderr, and its read end is returned.
    pub fn pipe_from_stderr(&mut self, pipe: (i32, i32)) -> (r: i32)
        ensures
            r == pipe.0,
            final(self)@ == (ChildBuilderView {
                io_configs: old(self)@.io_configs.push(
                    IoConfigView::PipeFromChild { child_fd: 2, pipe_w: Some(pipe.1) },
                ),
                ..old(self)@
            }),
    {
        let (fd, io_config) = PipeFromChild::new(2, pipe);
        self.config_io(io_config);
        fd
    }

    /// Redirects stderr to stdout, as `2>&1` does in a shell.
    pub fn redirect21(&mut self)
        ensures
            final(self)@ == (ChildBuilderView {
                io_configs: old(self)@.io_configs.push(
                    IoConfigView::Redirect { from_fd: 2, to_fd: 1, priority: 0 },
                ),
                ..old(self)@
            }),
    {
        self.config_io(Redirect::new(2, 1));
    }

    /// The descriptor open on the null device that the builder holds, if
    /// any.
    pub fn devnull_fd(&self) -> (r: Option<i32>)
        ensures
            r == self@.devnull,
    {
        self.devnull
    }

    /// Redirects `fd` of the child to the null device. `devnull` is a
    /// descriptor newly opened for writing on [`crate::DEVNULL`]; it is
    /// taken where the builder holds none yet, and ignored where it does.
    /// The child closes the null device's descriptor before `exec`, and the
    /// parent after the fork.
    pub fn quiet_fd(&mut self, fd: i32, devnull: i32)
        ensures
            ({
                let raw = match old(self)@.devnull {
                    Some(d) => d,
                    None => devnull,
                };
                final(self)@ == (ChildBuilderView {
                    devnull: Some(raw),
                    fds_to_close: old(self)@.fds_to_close.push(raw),
                    io_configs: old(self)@.io_configs.push(
                        IoConfigView::Redirect { from_fd: fd, to_fd: raw, priority: QUIET_PRIORITY },
                    ),
                    ..old(self)@
                })
            }),
    {
        let raw_fd = match self.devnull {
            Some(d) => d,
            None => {
                self.devnull = Some(devnull);
                devnull
            },
        };
        self.fd_close_after_fork(raw_fd);
        self.config_io(Redirect::new_with_priority(fd, raw_fd, QUIET_PRIORITY));
    }

    /// Redirects stdout and stderr to the null device (see
    /// [`ChildBuilder::quiet_fd`]).
    pub fn quiet(&mut self, devnull: i32)
        ensures
            ({
                let raw = match old(self)@.devnull {
                    Some(d) => d,
                    None => devnull,
                };
                final(self)@ == (ChildBuilderView {
                    devnull: Some(raw),
                    fds_to_close: old(self)@.fds_to_close.push(raw).push(raw),
                    io_configs: old(self)@.io_configs.push(
                        IoConfigView::Redirect { from_fd: 1, to_fd: raw, priority: QUIET_PRIORITY },
                    ).push(
                        IoConfigView::Redirect { from_fd: 2, to_fd: raw, priority: QUIET_PRIORITY },
                    ),
                    ..old(self)@
                })
            }),
    {
        self.quiet_fd(1, devnull);
        self.quiet_fd(2, devnull);
    }

    /// Redirects stdout to the null device (see [`ChildBuilder::quiet_fd`]).
    pub fn quiet_stdout(&mut self, devnull: i32)
        ensures
            ({
                let raw = match old(self)@.devnull {
                    Some(d) => d,
                    None => devnull,
                };
                final(self)@ == (ChildBuilderView {
                    devnull: Some(raw),
                    fds_to_close: old(self)@.fds_to_close.push(raw),
                    io_configs: old(self)@.io_configs.push(
                        IoConfigView::Redirect { from_fd: 1, to_fd: raw, priority: QUIET_PRIORITY },
                    ),
                    ..old(self)@
                })
            }),
    {
        self.quiet_fd(1, devnull);
    }

    /// Redirects stderr to the null device (see [`ChildBuilder::quiet_fd`]).
    pub fn quiet_stderr(&mut self, devnull: i32)
        ensures
            ({
                let raw = match old(self)@.devnull {
                    Some(d) => d,
                    None => devnull,
                };
                final(self)@ == (ChildBuilderView {
                    devnull: Some(raw),
                    fds_to_close: old(self)@.fds_to_close.push(raw),
                    io_configs: old(self)@.io_configs.push(
                        IoConfigView::Redirect { from_fd: 2, to_fd: raw, priority: QUIET_PRIORITY },
                    ),
                    ..old(self)@
                })
            }),
    {
        self.quiet_fd(2, devnull);
    }
}

/// Flattening one more group of operations appends it.
proof fn lemma_ops_push(s: Seq<IoConfigView>, i: int, f: spec_fn(IoConfigView) -> Seq<FdOp>)
    requires
        0 <= i < s.len(),
    ensures
        s.take(i + 1).map_values(f).flatten() == s.take(i).map_values(f).flatten() + f(s[i]),
{
    assert(s.take(i + 1).map_values(f) =~= s.take(i).map_values(f).push(f(s[i])));
    s.take(i).map_values(f).lemma_flatten_push(f(s[i]));
}

impl ChildBuilder {
    /// What is done around the fork that starts the child: descriptor
    /// configurations are applied in [`priority_order`] (highest priority
    /// first, order of addition among equals); the child then closes the
    /// descriptors given to [`ChildBuilder::fd_close_after_fork`]; the parent
    /// also closes the null device's descriptor that the builder holds.
    pub fn spawn_plan(self) -> (r: SpawnPlan)
        ensures
            r.child_ops@ == child_ops_of(priority_order(self@.io_configs)) + closes_of(
                self@.fds_to_close,
            ),
            r.parent_ops@ == parent_ops_of(priority_order(self@.io_configs)) + match self@.devnull {
                Some(d) => seq![FdOp::Close { fd: d }],
                None => Seq::empty(),
            },
            opt_bytes(r.chroot) == self@.chroot,
            opt_bytes(r.chdir) == self@.chdir,
            r.bin.view() == self@.bin,
            arguments_view(r.args@) == self@.args,
            opt_env(r.env) == self@.env,
    {
        let ghost cfgs = self@.io_configs;
        let ghost fds = self@.fds_to_close;
        let ghost devnull = self@.devnull;
        let ChildBuilder { bin, args, io_configs, devnull: devnull_fd, fds_to_close, env, chdir, chroot } = self;
        let mut sorted = sort_by_priority(io_configs);
        let ghost order = views(sorted@);
        let ghost child_f = |c: IoConfigView| c.child_ops();
        let ghost parent_f = |c: IoConfigView| c.parent_ops();
        let mut child_ops: Vec<FdOp> = Vec::new();
        let mut parent_ops: Vec<FdOp> = Vec::new();
        let n = sorted.len();
        let mut i: usize = 0;
        assert(order.take(0).map_values(child_f) =~= Seq::<Seq<FdOp>>::empty());
        assert(order.take(0).map_values(parent_f) =~= Seq::<Seq<FdOp>>::empty());
        while i < n
            invariant
                n == sorted@.len(),
                i <= n,
                order.len() == n,
                forall|j: int| i <= j < n ==> #[trigger] sorted@[j].view() == order[j],
                child_f == (|c: IoConfigView| c.child_ops()),
                parent_f == (|c: IoConfigView| c.parent_ops()),
                child_ops@ == order.take(i as int).map_values(child_f).flatten(),
                parent_ops@ == order.take(i as int).map_values(parent_f).flatten(),
            decreases n - i,
        {
            let mut c_ops = sorted[i].child_post_fork();
            let ghost before = sorted@;
            let mut p_ops = sorted[i].parent_post_fork();
            proof {
                lemma_ops_push(order, i as int, child_f);
                lemma_ops_push(order, i as int, parent_f);
                assert forall|j: int| i < j < n implies #[trigger] sorted@[j].view() == order[j] by {
                    assert(sorted@[j] == before[j]);
                }
            }
            child_ops.append(&mut c_ops);
            parent_ops.append(&mut p_ops);
            i = i + 1;
        }
        assert(order.take(n as int) =~= order);
        let ghost base = child_ops@;
        let mut k: usize = 0;
        assert(fds.take(0).map_values(|fd: i32| FdOp::Close { fd }) =~= Seq::<FdOp>::empty());
        while k < fds_to_close.len()
            invariant
                fds == fds_to_close@,
                k <= fds.len(),
                child_ops@ == base + closes_of(fds.take(k as int)),
            decreases fds.len() - k,
        {
            child_ops.push(FdOp::Close { fd: fds_to_close[k] });
            assert(closes_of(fds.take(k + 1)) =~= closes_of(fds.take(k as int)).push(
                FdOp::Close { fd: fds[k as int] },
            ));
            assert(base + closes_of(fds.take(k + 1)) =~= (base + closes_of(fds.take(k as int))).push(
                FdOp::Close { fd: fds[k as int] },
            ));
            k = k + 1;
        }
        assert(fds.take(k as int) =~= fds);
        match devnull_fd {
            Some(d) => {
                parent_ops.push(FdOp::Close { fd: d });
            },
            None => {
                assert(parent_ops@ + Seq::<FdOp>::empty() =~= parent_ops@);
            },
        }
        SpawnPlan { parent_ops, child_ops, chroot, chdir, bin, args, env }
    }
}

} // verus!
