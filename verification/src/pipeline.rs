use vstd::prelude::*;
use crate::creche::{ChildBuilder, ChildBuilderView, QUIET_PRIORITY};
use crate::envconfig::{Environment, arguments_view, duplicate_env};
use crate::ioconfig::{IOConfig, IoConfigView, InterprocessPipeRead, Redirect, interprocess_pipe};
use crate::utils::{HeadBodyTail, HeadBodyTailIter};

verus! {

/// The plain values of a [`SimplePipelineBuilder`].
pub struct SimplePipelineView {
    pub builders: Seq<ChildBuilderView>,
    pub devnull: Option<i32>,
    pub env: Option<Seq<Seq<u8>>>,
}

/// The plain values of a sequence of builders.
pub open spec fn builders_view(s: Seq<ChildBuilder>) -> Seq<ChildBuilderView> {
    s.map_values(|b: ChildBuilder| b@)
}

/// The configuration that connects a child's stdout to the write end of
/// `pipe`.
pub open spec fn pipe_write_end(pipe: (i32, i32)) -> IoConfigView {
    IoConfigView::InterprocessPipeWrite { child_fd: 1, write_fd: Some(pipe.1) }
}

/// The configuration that connects a child's stdin to the read end of
/// `pipe`.
pub open spec fn pipe_read_end(pipe: (i32, i32)) -> IoConfigView {
    IoConfigView::InterprocessPipeRead { child_fd: 0, read_fd: Some(pipe.0) }
}

/// Builder `i` of `n` in a pipeline whose consecutive children are joined
/// by `pipes`: its stdout goes to pipe `i` unless it is the last, then its
/// stdin comes from pipe `i - 1` unless it is the first.
pub open spec fn piped(b: ChildBuilderView, i: int, n: int, pipes: Seq<(i32, i32)>) -> ChildBuilderView {
    let w = if i < n - 1 {
        seq![pipe_write_end(pipes[i])]
    } else {
        Seq::empty()
    };
    let r = if i > 0 {
        seq![pipe_read_end(pipes[i - 1])]
    } else {
        Seq::empty()
    };
    ChildBuilderView { io_configs: b.io_configs + w + r, ..b }
}

/// The builder with the pipeline's environment where it has none of its
/// own.
pub open spec fn with_env(b: ChildBuilderView, env: Option<Seq<Seq<u8>>>) -> ChildBuilderView {
    ChildBuilderView {
        env: if b.env is None {
            env
        } else {
            b.env
        },
        ..b
    }
}

/// Constructs a pipeline that connects stdout of each child process to
/// stdin of the next, except stdin of the first and stdout of the last.
pub struct SimplePipelineBuilder {
    builders: Vec<ChildBuilder>,
    devnull: Option<i32>,
    env: Option<Environment>,
}

impl View for SimplePipelineBuilder {
    type V = SimplePipelineView;

    closed spec fn view(&self) -> SimplePipelineView {
        SimplePipelineView {
            builders: builders_view(self.builders@),
            devnull: self.devnull,
            env: match self.env {
                Some(e) => Some(arguments_view(e@)),
                None => None,
            },
        }
    }
}

proof fn lemma_builders_push(s: Seq<ChildBuilder>, b: ChildBuilder)
    ensures
        builders_view(s.push(b)) == builders_view(s).push(b@),
{
    assert(builders_view(s.push(b)) =~= builders_view(s).push(b@));
}

/// Takes the elements of `v` out, last one first.
fn reversed<T>(v: Vec<T>) -> (r: Vec<T>)
    ensures
        r@ == v@.reverse(),
{
    let mut src = v;
    let mut rev: Vec<T> = Vec::new();
    while src.len() > 0
        invariant
            src@ + rev@.reverse() == v@,
        decreases src.len(),
    {
        let ghost before = src@;
        let x = src.pop().unwrap();
        proof {
            assert(before == src@.push(x));
            assert(rev@.push(x).reverse() =~= seq![x] + rev@.reverse());
            assert(src@ + (seq![x] + rev@.reverse()) =~= src@.push(x) + rev@.reverse());
        }
        rev.push(x);
    }
    assert(src@ =~= Seq::<T>::empty());
    assert(rev@.reverse().reverse() =~= rev@);
    assert(rev@ =~= v@.reverse()) by {
        assert(rev@.reverse() =~= v@);
    }
    rev
}

impl SimplePipelineBuilder {
    /// An empty pipeline.
    pub fn new() -> (r: Self)
        ensures
            r@ == (SimplePipelineView { builders: Seq::empty(), devnull: None, env: None }),
    {
        let r = SimplePipelineBuilder { builders: Vec::new(), devnull: None, env: None };
        assert(r@.builders =~= Seq::<ChildBuilderView>::empty());
        r
    }

    /// The number of child processes in the pipeline.
    pub fn len(&self) -> (r: usize)
        ensures
            r == self@.builders.len(),
    {
        self.builders.len()
    }

    /// The descriptor open on the null device that the pipeline holds, if
    /// any.
    pub fn devnull_fd(&self) -> (r: Option<i32>)
        ensures
            r == self@.devnull,
    {
        self.devnull
    }

    /// Adds a child process at the end of the pipeline.
    pub fn add_builder(&mut self, builder: ChildBuilder) -> (r: &mut Self)
        ensures
            r@ == (SimplePipelineView {
                builders: old(self)@.builders.push(builder@),
                ..old(self)@
            }),
            *final(self) == *final(r),
    {
        proof {
            lemma_builders_push(self.builders@, builder);
        }
        self.builders.push(builder);
        self
    }

    /// Sets an environment for all child processes of the pipeline that do
    /// not set one of their own.
    pub fn set_env(&mut self, env: Environment) -> (r: &mut Self)
        ensures
            r@ == (SimplePipelineView { env: Some(arguments_view(env@)), ..old(self)@ }),
            *final(self) == *final(r),
    {
        self.env = Some(env);
        self
    }

    /// Redirects stderr of every child process added so far to the null
    /// device. `devnull` is a descriptor newly opened for writing on
    /// [`crate::DEVNULL`]; it is taken where the pipeline holds none yet, and
    /// ignored where it does, so that the null device is opened once.
    pub fn quiet(&mut self, devnull: i32) -> (r: &mut Self)
        ensures
            ({
                let raw = match old(self)@.devnull {
                    Some(d) => d,
                    None => devnull,
                };
                &&& r@.devnull == Some(raw)
                &&& r@.env == old(self)@.env
                &&& r@.builders.len() == old(self)@.builders.len()
                &&& forall|i: int|
                    0 <= i < old(self)@.builders.len() ==> #[trigger] r@.builders[i] == (
                    ChildBuilderView {
                        io_configs: old(self)@.builders[i].io_configs.push(
                            IoConfigView::Redirect { from_fd: 2, to_fd: raw, priority: QUIET_PRIORITY },
                        ),
                        ..old(self)@.builders[i]
                    })
            }),
            r@ == quiet_effect(old(self)@, devnull),
            *final(self) == *final(r),
    {
        let raw_fd = match self.devnull {
            Some(d) => d,
            None => {
                self.devnull = Some(devnull);
                devnull
            },
        };
        let ghost old_builders = builders_view(self.builders@);
        let n = self.builders.len();
        let mut i: usize = 0;
        while i < n
            invariant
                n == self.builders@.len(),
                old_builders.len() == n,
                old_builders == old(self)@.builders,
                self.devnull == Some(raw_fd),
                self.env == old(self).env,
                raw_fd == match old(self)@.devnull {
                    Some(d) => d,
                    None => devnull,
                },
                i <= n,
                forall|j: int|
                    0 <= j < n ==> #[trigger] self.builders@[j]@ == if j < i {
                        ChildBuilderView {
                            io_configs: old_builders[j].io_configs.push(
                                IoConfigView::Redirect {
                                    from_fd: 2,
                                    to_fd: raw_fd,
                                    priority: QUIET_PRIORITY,
                                },
                            ),
                            ..old_builders[j]
                        }
                    } else {
                        old_builders[j]
                    },
            decreases n - i,
        {
            let ghost before = self.builders@;
            self.builders[i].config_io(Redirect::new_with_priority(2, raw_fd, QUIET_PRIORITY));
            proof {
                assert forall|j: int| 0 <= j < n && j != i implies self.builders@[j] == before[j] by {}
            }
            i = i + 1;
        }
        proof {
            assert forall|j: int| 0 <= j < n implies #[trigger] builders_view(self.builders@)[j]
                == self.builders@[j]@ by {}
            assert(self@.builders =~= quiet_effect(old(self)@, devnull).builders);
        }
        self
    }

    /// Prepares the pipeline's child processes for starting, given the
    /// freshly created pipes `(read end, write end)` that join consecutive
    /// children: the write end of pipe `i` becomes stdout of child `i`, its
    /// read end stdin of child `i + 1`; each child without an environment of
    /// its own gets the pipeline's. Returns the builders in the order in
    /// which they are started, the reverse of the order in which they were
    /// added, and leaves the pipeline without builders.
    pub fn spawn(&mut self, pipes: Vec<(i32, i32)>) -> (r: Vec<ChildBuilder>)
        requires
            old(self)@.builders.len() >= 1,
            pipes@.len() == old(self)@.builders.len() - 1,
        ensures
            ({
                let n = old(self)@.builders.len() as int;
                &&& r@.len() == n
                &&& forall|i: int|
                    0 <= i < n ==> #[trigger] r@[n - 1 - i]@ == with_env(
                        piped(old(self)@.builders[i], i, n, pipes@),
                        old(self)@.env,
                    )
            }),
            final(self)@ == (SimplePipelineView { builders: Seq::empty(), ..old(self)@ }),
    {
        let ghost bs = builders_view(self.builders@);
        let ghost n = bs.len() as int;
        let mut builders: Vec<ChildBuilder> = Vec::new();
        std::mem::swap(&mut builders, &mut self.builders);
        let n_exec = builders.len();
        let ghost src = builders@;
        assert(builders_view(src) == bs);
        let mut it = HeadBodyTailIter::new(builders);
        let mut wired: Vec<ChildBuilder> = Vec::new();
        let mut pipe_read: Option<InterprocessPipeRead> = None;
        let mut i: usize = 0;
        loop
            invariant
                bs == builders_view(src),
                n == src.len(),
                n == n_exec,
                n >= 1,
                pipes@.len() == n - 1,
                i <= n,
                it.remaining() == src.skip(i as int),
                it.is_first() == (i == 0),
                wired@.len() == i,
                forall|j: int| 0 <= j < i ==> #[trigger] wired@[j]@ == piped(bs[j], j, n, pipes@),
                i == 0 ==> pipe_read is None,
                0 < i < n ==> pipe_read is Some && pipe_read.unwrap().view() == pipe_read_end(
                    pipes@[i - 1],
                ),
            ensures
                i == n,
                wired@.len() == n,
                forall|j: int| 0 <= j < n ==> #[trigger] wired@[j]@ == piped(bs[j], j, n, pipes@),
            decreases n - i,
        {
            let ghost rem = it.remaining();
            match it.next() {
                None => {
                    assert(src.skip(i as int).len() == 0);
                    break;
                },
                Some(tag) => {
                    proof {
                        assert(rem.len() > 0);
                        assert(i < n);
                        assert(rem[0] == src[i as int]);
                        assert(bs[i as int] == src[i as int]@);
                    }
                    let ghost wired_before = wired@;
                    match tag {
                        HeadBodyTail::Only(b) => {
                            proof {
                                assert(b@.io_configs + Seq::<IoConfigView>::empty()
                                    + Seq::<IoConfigView>::empty() =~= b@.io_configs);
                            }
                            wired.push(b);
                        },
                        HeadBodyTail::Head(b) => {
                            let mut b = b;
                            let (r, w) = interprocess_pipe(0, 1, pipes[i]);
                            b.config_io(IOConfig::InterprocessPipeWrite(w));
                            pipe_read = Some(r);
                            proof {
                                assert(b@.io_configs =~= bs[i as int].io_configs + seq![
                                    pipe_write_end(pipes@[i as int]),
                                ] + Seq::<IoConfigView>::empty());
                            }
                            wired.push(b);
                        },
                        HeadBodyTail::Body(b) => {
                            let mut b = b;
                            let (r, w) = interprocess_pipe(0, 1, pipes[i]);
                            b.config_io(IOConfig::InterprocessPipeWrite(w));
                            match pipe_read.take() {
                                Some(prev_r) => {
                                    b.config_io(IOConfig::InterprocessPipeRead(prev_r));
                                },
                                None => {},
                            }
                            pipe_read = Some(r);
                            proof {
                                assert(b@.io_configs =~= bs[i as int].io_configs + seq![
                                    pipe_write_end(pipes@[i as int]),
                                ] + seq![pipe_read_end(pipes@[i - 1])]);
                            }
                            wired.push(b);
                        },
                        HeadBodyTail::Tail(b) => {
                            let mut b = b;
                            match pipe_read.take() {
                                Some(prev_r) => {
                                    b.config_io(IOConfig::InterprocessPipeRead(prev_r));
                                },
                                None => {},
                            }
                            proof {
                                assert(b@.io_configs =~= bs[i as int].io_configs
                                    + Seq::<IoConfigView>::empty() + seq![
                                    pipe_read_end(pipes@[i - 1]),
                                ]);
                            }
                            wired.push(b);
                        },
                    }
                    proof {
                        assert(src.skip(i + 1) =~= src.skip(i as int).drop_first());
                        assert forall|j: int| 0 <= j < i + 1 implies #[trigger] wired@[j]@ == piped(
                            bs[j],
                            j,
                            n,
                            pipes@,
                        ) by {
                            if j < i {
                                assert(wired@[j] == wired_before[j]);
                            }
                        }
                    }
                    i = i + 1;
                },
            }
        }
        // start the children last to first
        let ghost wv = wired@;
        let mut pending = wired;
        let mut started: Vec<ChildBuilder> = Vec::new();
        let mut k: usize = 0;
        let nn = pending.len();
        while k < nn
            invariant
                nn == n,
                wv.len() == n,
                k <= nn,
                pending@ == wv.take(nn - k),
                started@.len() == k,
                forall|j: int| 0 <= j < k ==> #[trigger] started@[j]@ == with_env(wv[nn - 1 - j]@, self@.env),
                self@.env == old(self)@.env,
                self@.builders == Seq::<ChildBuilderView>::empty(),
                self@.devnull == old(self)@.devnull,
            decreases nn - k,
        {
            let ghost pending_before = pending@;
            let mut b = pending.pop().unwrap();
            proof {
                assert(pending_before == pending@.push(b));
                assert(b == wv[nn - 1 - k]);
                assert(pending@ =~= wv.take(nn - (k + 1)));
            }
            match &self.env {
                Some(env) => {
                    b.set_env(duplicate_env(env));
                },
                None => {},
            }
            let ghost started_before = started@;
            started.push(b);
            proof {
                assert forall|j: int| 0 <= j < k + 1 implies #[trigger] started@[j]@ == with_env(
                    wv[nn - 1 - j]@,
                    self@.env,
                ) by {
                    if j < k {
                        assert(started@[j] == started_before[j]);
                    }
                }
            }
            k = k + 1;
        }
        proof {
            assert forall|i: int| 0 <= i < n implies #[trigger] started@[n - 1 - i]@ == with_env(
                piped(bs[i], i, n, pipes@),
                old(self)@.env,
            ) by {
                assert(nn - 1 - (n - 1 - i) == i);
            }
        }
        started
    }
}

impl Default for SimplePipelineBuilder {
    /// See [`SimplePipelineBuilder::new`].
    fn default() -> (r: Self)
        ensures
            r@ == (SimplePipelineView { builders: Seq::empty(), devnull: None, env: None }),
    {
        SimplePipelineBuilder::new()
    }
}

/// The redirection of stderr to the null device's descriptor `d`.
pub open spec fn quiet_redirect(d: i32) -> IoConfigView {
    IoConfigView::Redirect { from_fd: 2, to_fd: d, priority: QUIET_PRIORITY }
}

/// The pipeline after one call of [`SimplePipelineBuilder::quiet`] with the
/// newly opened descriptor `devnull`: the null device's descriptor is the
/// one the pipeline held, or else `devnull`, and every builder gains a
/// redirection of stderr to it.
pub open spec fn quiet_effect(p: SimplePipelineView, devnull: i32) -> SimplePipelineView {
    let raw = match p.devnull {
        Some(d) => d,
        None => devnull,
    };
    SimplePipelineView {
        builders: p.builders.map_values(
            |b: ChildBuilderView| ChildBuilderView { io_configs: b.io_configs.push(quiet_redirect(raw)), ..b },
        ),
        devnull: Some(raw),
        env: p.env,
    }
}

/// The pipeline after successive calls of `quiet`, the `k`-th offered the
/// descriptor `ds[k]`.
pub open spec fn quiet_calls(p: SimplePipelineView, ds: Seq<i32>) -> SimplePipelineView
    decreases ds.len(),
{
    if ds.len() == 0 {
        p
    } else {
        quiet_calls(quiet_effect(p, ds[0]), ds.drop_first())
    }
}

/// Calling `quiet` `m` times on a pipeline gives every builder present `m`
/// redirections of stderr, all to the same null device's descriptor: the
/// one the pipeline held, or else the one offered to the first call (the
/// null device is opened once). The pipeline's environment and its number
/// of builders do not change.
pub proof fn lemma_quiet_repeated(p: SimplePipelineView, ds: Seq<i32>)
    requires
        ds.len() > 0,
    ensures
        ({
            let raw = match p.devnull {
                Some(d) => d,
                None => ds[0],
            };
            let q = quiet_calls(p, ds);
            &&& q.devnull == Some(raw)
            &&& q.env == p.env
            &&& q.builders.len() == p.builders.len()
            &&& forall|i: int|
                0 <= i < p.builders.len() ==> #[trigger] q.builders[i] == (ChildBuilderView {
                    io_configs: p.builders[i].io_configs + Seq::new(
                        ds.len(),
                        |k: int| quiet_redirect(raw),
                    ),
                    ..p.builders[i]
                })
        }),
    decreases ds.len(),
{
    let raw = match p.devnull {
        Some(d) => d,
        None => ds[0],
    };
    let p1 = quiet_effect(p, ds[0]);
    let rest = ds.drop_first();
    if rest.len() == 0 {
        assert(quiet_calls(p1, rest) == p1);
        assert forall|i: int| 0 <= i < p.builders.len() implies #[trigger] quiet_calls(
            p,
            ds,
        ).builders[i] == (ChildBuilderView {
            io_configs: p.builders[i].io_configs + Seq::new(ds.len(), |k: int| quiet_redirect(raw)),
            ..p.builders[i]
        }) by {
            assert(p.builders[i].io_configs.push(quiet_redirect(raw)) =~= p.builders[i].io_configs
                + Seq::new(ds.len(), |k: int| quiet_redirect(raw)));
        }
    } else {
        lemma_quiet_repeated(p1, rest);
        assert(p1.devnull == Some(raw));
        assert forall|i: int| 0 <= i < p.builders.len() implies #[trigger] quiet_calls(
            p,
            ds,
        ).builders[i] == (ChildBuilderView {
            io_configs: p.builders[i].io_configs + Seq::new(ds.len(), |k: int| quiet_redirect(raw)),
            ..p.builders[i]
        }) by {
            assert(p1.builders[i].io_configs == p.builders[i].io_configs.push(quiet_redirect(raw)));
            assert(p1.builders[i].io_configs + Seq::new(rest.len(), |k: int| quiet_redirect(raw))
                =~= p.builders[i].io_configs + Seq::new(ds.len(), |k: int| quiet_redirect(raw)));
        }
    }
}

/// In a pipeline of `n` children, stdout of each child but the last goes to
/// a pipe whose read end becomes stdin of the next child; stdin of the
/// first child and stdout of the last are left as they were configured.
pub proof fn lemma_pipeline_links(bs: Seq<ChildBuilderView>, pipes: Seq<(i32, i32)>, i: int)
    requires
        bs.len() >= 1,
        pipes.len() == bs.len() - 1,
        0 <= i < bs.len(),
    ensures
        i < bs.len() - 1 ==> piped(bs[i], i, bs.len() as int, pipes).io_configs.contains(
            pipe_write_end(pipes[i]),
        ) && piped(bs[i + 1], i + 1, bs.len() as int, pipes).io_configs.contains(
            pipe_read_end(pipes[i]),
        ),
        i == 0 && bs.len() > 1 ==> piped(bs[0], 0, bs.len() as int, pipes).io_configs
            == bs[0].io_configs.push(pipe_write_end(pipes[0])),
        i == bs.len() - 1 && bs.len() > 1 ==> piped(bs[i], i, bs.len() as int, pipes).io_configs
            == bs[i].io_configs.push(pipe_read_end(pipes[i - 1])),
        bs.len() == 1 ==> piped(bs[0], 0, 1, pipes) == bs[0],
{
    let n = bs.len() as int;
    if i < n - 1 {
        let a = piped(bs[i], i, n, pipes).io_configs;
        let r = if i > 0 {
            seq![pipe_read_end(pipes[i - 1])]
        } else {
            Seq::empty()
        };
        assert(a == bs[i].io_configs + seq![pipe_write_end(pipes[i])] + r);
        assert(a[bs[i].io_configs.len() as int] == pipe_write_end(pipes[i]));
        let b = piped(bs[i + 1], i + 1, n, pipes).io_configs;
        assert(b[b.len() - 1] == pipe_read_end(pipes[i]));
    }
    if i == 0 && n > 1 {
        assert(piped(bs[0], 0, n, pipes).io_configs =~= bs[0].io_configs.push(
            pipe_write_end(pipes[0]),
        ));
    }
    if i == n - 1 && n > 1 {
        assert(piped(bs[i], i, n, pipes).io_configs =~= bs[i].io_configs.push(
            pipe_read_end(pipes[i - 1]),
        ));
    }
    if n == 1 {
        assert(piped(bs[0], 0, 1, pipes).io_configs =~= bs[0].io_configs);
    }
}

/// The child processes of a pipeline, in the order in which their builders
/// were added.
pub struct PipelineChildren<C> {
    children: Vec<C>,
}

impl<C> PipelineChildren<C> {
    /// The children, in the order in which their builders were added.
    pub closed spec fn view(&self) -> Seq<C> {
        self.children@
    }

    /// Collects the children of a pipeline, given in the order in which they
    /// were started (the reverse of the order of addition).
    pub fn new(started: Vec<C>) -> (r: Self)
        ensures
            r.view() == started@.reverse(),
    {
        PipelineChildren { children: reversed(started) }
    }

    /// The children, in the order in which their builders were added.
    pub fn children(&self) -> (r: &[C])
        ensures
            r@ == self.view(),
    {
        self.children.as_slice()
    }

    /// What waiting on the pipeline goes through: `None` where there is no
    /// child left, and otherwise every child, in the order in which the
    /// builders were added, leaving none behind.
    pub fn take_for_wait(&mut self) -> (r: Option<Vec<C>>)
        ensures
            old(self).view().len() == 0 ==> r is None && final(self).view() == old(self).view(),
            old(self).view().len() > 0 ==> (r matches Some(v) && v@ == old(self).view()
                && final(self).view() == Seq::<C>::empty()),
    {
        if self.children.len() == 0 {
            return None;
        }
        let mut children: Vec<C> = Vec::new();
        std::mem::swap(&mut children, &mut self.children);
        Some(children)
    }
}

} // verus!
