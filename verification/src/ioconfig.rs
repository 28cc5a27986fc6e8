use vstd::prelude::*;

verus! {

/// A file descriptor operation that the parent or the child process
/// performs after the fork.
#[derive(Clone, Copy, PartialEq, Eq, Structural, Debug)]
pub enum FdOp {
    /// `dup2(oldfd, newfd)`; a failure is ignored.
    Dup2 { oldfd: i32, newfd: i32 },
    /// `close(fd)`; a failure is ignored.
    Close { fd: i32 },
    /// `close(fd)`; a failure makes the child process panic.
    CloseOrPanic { fd: i32 },
    /// The configuration no longer holds the descriptor it should connect:
    /// the child process panics.
    Panic,
}

/// What a descriptor configuration holds, as plain values.
#[derive(Clone, Copy, PartialEq, Eq, Structural, Debug)]
pub enum IoConfigView {
    Redirect { from_fd: i32, to_fd: i32, priority: i32 },
    PipeFromChild { child_fd: i32, pipe_w: Option<i32> },
    PipeToChild { child_fd: i32, pipe_r: Option<i32> },
    InterprocessPipeRead { child_fd: i32, read_fd: Option<i32> },
    InterprocessPipeWrite { child_fd: i32, write_fd: Option<i32> },
    RedirectToFd { child_fd: i32, owned_fd: Option<i32> },
}

/// The priority that configurations have unless they set one.
pub const DEFAULT_PRIORITY: i32 = 100;

/// The child's single `dup2` of `fd` onto `child_fd`, or a panic where the
/// descriptor is gone.
pub open spec fn dup_onto(fd: Option<i32>, child_fd: i32) -> Seq<FdOp> {
    match fd {
        Some(f) => seq![FdOp::Dup2 { oldfd: f, newfd: child_fd }],
        None => seq![FdOp::Panic],
    }
}

/// The parent's closing of a descriptor it still holds.
pub open spec fn close_held(fd: Option<i32>) -> Seq<FdOp> {
    match fd {
        Some(f) => seq![FdOp::Close { fd: f }],
        None => Seq::empty(),
    }
}

impl IoConfigView {
    /// Configurations of higher priority are applied first in the child, so
    /// that those of lower priority override them.
    pub open spec fn priority(self) -> i32 {
        match self {
            IoConfigView::Redirect { priority, .. } => priority,
            _ => DEFAULT_PRIORITY,
        }
    }

    /// What the child process does for this configuration after the fork.
    pub open spec fn child_ops(self) -> Seq<FdOp> {
        match self {
            IoConfigView::Redirect { from_fd, to_fd, .. } => seq![
                FdOp::Dup2 { oldfd: to_fd, newfd: from_fd },
            ],
            IoConfigView::PipeFromChild { child_fd, pipe_w } => dup_onto(pipe_w, child_fd),
            IoConfigView::PipeToChild { child_fd, pipe_r } => dup_onto(pipe_r, child_fd),
            IoConfigView::InterprocessPipeRead { child_fd, read_fd } => dup_onto(read_fd, child_fd),
            IoConfigView::InterprocessPipeWrite { child_fd, write_fd } => dup_onto(
                write_fd,
                child_fd,
            ),
            IoConfigView::RedirectToFd { child_fd, owned_fd } => match owned_fd {
                Some(f) => seq![
                    FdOp::Dup2 { oldfd: f, newfd: child_fd },
                    FdOp::CloseOrPanic { fd: f },
                ],
                None => seq![FdOp::Panic],
            },
        }
    }

    /// What the parent process does for this configuration after the fork:
    /// it closes the descriptor meant for the child.
    pub open spec fn parent_ops(self) -> Seq<FdOp> {
        match self {
            IoConfigView::Redirect { .. } => Seq::empty(),
            IoConfigView::PipeFromChild { pipe_w, .. } => close_held(pipe_w),
            IoConfigView::PipeToChild { pipe_r, .. } => close_held(pipe_r),
            IoConfigView::InterprocessPipeRead { read_fd, .. } => close_held(read_fd),
            IoConfigView::InterprocessPipeWrite { write_fd, .. } => close_held(write_fd),
            IoConfigView::RedirectToFd { owned_fd, .. } => close_held(owned_fd),
        }
    }

    /// The configuration once the parent has closed its descriptor.
    pub open spec fn after_parent(self) -> IoConfigView {
        match self {
            IoConfigView::Redirect { .. } => self,
            IoConfigView::PipeFromChild { child_fd, .. } => IoConfigView::PipeFromChild {
                child_fd,
                pipe_w: None,
            },
            IoConfigView::PipeToChild { child_fd, .. } => IoConfigView::PipeToChild {
                child_fd,
                pipe_r: None,
            },
            IoConfigView::InterprocessPipeRead { child_fd, .. } => IoConfigView::InterprocessPipeRead {
                child_fd,
                read_fd: None,
            },
            IoConfigView::InterprocessPipeWrite {
                child_fd,
                ..
            } => IoConfigView::InterprocessPipeWrite { child_fd, write_fd: None },
            IoConfigView::RedirectToFd { child_fd, .. } => IoConfigView::RedirectToFd {
                child_fd,
                owned_fd: None,
            },
        }
    }
}

/// The descriptor that a configuration holds for the child, if any.
pub open spec fn held_fd(c: IoConfigView) -> Option<i32> {
    match c {
        IoConfigView::Redirect { .. } => None,
        IoConfigView::PipeFromChild { pipe_w, .. } => pipe_w,
        IoConfigView::PipeToChild { pipe_r, .. } => pipe_r,
        IoConfigView::InterprocessPipeRead { read_fd, .. } => read_fd,
        IoConfigView::InterprocessPipeWrite { write_fd, .. } => write_fd,
        IoConfigView::RedirectToFd { owned_fd, .. } => owned_fd,
    }
}

/// The descriptor that a configuration holds for the child is the one the
/// child duplicates, and the parent closes it after the fork, once: after
/// that the configuration holds nothing and the parent has nothing more to
/// close.
pub proof fn lemma_parent_closes_what_child_gets(c: IoConfigView)
    ensures
        held_fd(c) matches Some(f) ==> c.parent_ops() == seq![FdOp::Close { fd: f }] && (
        c.child_ops()[0] matches FdOp::Dup2 { oldfd, .. } && oldfd == f),
        held_fd(c.after_parent()) is None,
        c.after_parent().parent_ops() == Seq::<FdOp>::empty(),
        c.after_parent().priority() == c.priority(),
{
}

/// Only redirects carry a priority of their own: every other configuration
/// (pipes, interprocess pipes, redirects to an owned descriptor) has the
/// default priority 100, and a redirect has the priority it was made with.
/// So a redirect made with a lower priority (`redirect21`, `quiet`) is
/// applied after every other kind of configuration, and overrides it.
pub proof fn lemma_only_redirects_set_priority(c: IoConfigView)
    ensures
        !(c is Redirect) ==> c.priority() == 100,
        c matches IoConfigView::Redirect { priority: p, .. } ==> c.priority() == p,
{
}

/// A redirect of lower priority than 100 comes, in the application order,
/// after every configuration that is not a redirect.
pub proof fn lemma_low_redirects_come_last(s: Seq<IoConfigView>, i: int, j: int)
    requires
        0 <= i < priority_order(s).len(),
        0 <= j < priority_order(s).len(),
        !(priority_order(s)[i] is Redirect),
        priority_order(s)[j] matches IoConfigView::Redirect { priority: p, .. } && p < 100,
    ensures
        i < j,
{
    lemma_priority_order_descending(s);
    if j < i {
        assert(priority_order(s)[j].priority() >= priority_order(s)[i].priority());
    }
}

/// Configures file descriptors of a child process around the fork.
pub trait ConfigureIO {
    /// The operations the child process performs, after the fork and before
    /// `exec`.
    fn child_post_fork(&self) -> (r: Vec<FdOp>)
        default_ensures
            r@ == Seq::<FdOp>::empty(),
    {
        Vec::new()
    }

    /// The operations the parent process performs after the fork; the
    /// configuration gives up the descriptors it closes.
    fn parent_post_fork(&mut self) -> (r: Vec<FdOp>)
        default_ensures
            r@ == Seq::<FdOp>::empty(),
    {
        Vec::new()
    }

    /// The setup priority. Configurations of lower priority are applied
    /// after those of higher priority, so that redirects may override
    /// pipeline configurations.
    fn priority(&self) -> (r: i32)
        default_ensures
            r == DEFAULT_PRIORITY,
    {
        DEFAULT_PRIORITY
    }
}

/// The child's `dup2` of `fd` onto `child_fd`, or a panic.
fn dup_onto_ops(fd: Option<i32>, child_fd: i32) -> (r: Vec<FdOp>)
    ensures
        r@ == dup_onto(fd, child_fd),
{
    match fd {
        Some(f) => vec![FdOp::Dup2 { oldfd: f, newfd: child_fd }],
        None => vec![FdOp::Panic],
    }
}

/// The parent's closing of `fd`, which it gives up.
fn close_held_ops(fd: &mut Option<i32>) -> (r: Vec<FdOp>)
    ensures
        r@ == close_held(*old(fd)),
        *final(fd) is None,
{
    match fd.take() {
        Some(f) => vec![FdOp::Close { fd: f }],
        None => Vec::new(),
    }
}

/// Generic fd redirect: the child `dup2`s `to_fd` onto `from_fd`. Closes no
/// descriptor in the parent or the child.
pub struct Redirect {
    from_fd: i32,
    to_fd: i32,
    priority: i32,
}

impl Redirect {
    pub closed spec fn view(&self) -> IoConfigView {
        IoConfigView::Redirect { from_fd: self.from_fd, to_fd: self.to_fd, priority: self.priority }
    }

    /// Redirects `from_fd` to `to_fd`, with priority 0. For example, to
    /// redirect stderr to stdout: `Redirect::new(2, 1)`.
    pub fn new(from_fd: i32, to_fd: i32) -> (r: IOConfig)
        ensures
            r.view() == (IoConfigView::Redirect { from_fd, to_fd, priority: 0 }),
    {
        IOConfig::Redirect(Redirect { from_fd, to_fd, priority: 0 })
    }

    /// Redirects `from_fd` to `to_fd` with the given priority. Lower numbers
    /// are configured after higher ones, so they override them.
    pub fn new_with_priority(from_fd: i32, to_fd: i32, priority: i32) -> (r: IOConfig)
        ensures
            r.view() == (IoConfigView::Redirect { from_fd, to_fd, priority }),
    {
        IOConfig::Redirect(Redirect { from_fd, to_fd, priority })
    }
}

impl ConfigureIO for Redirect {
    fn child_post_fork(&self) -> (r: Vec<FdOp>)
        ensures
            r@ == self.view().child_ops(),
    {
        vec![FdOp::Dup2 { oldfd: self.to_fd, newfd: self.from_fd }]
    }

    fn parent_post_fork(&mut self) -> (r: Vec<FdOp>)
        ensures
            r@ == old(self).view().parent_ops(),
            final(self).view() == old(self).view().after_parent(),
    {
        Vec::new()
    }

    fn priority(&self) -> (r: i32)
        ensures
            r == self.view().priority(),
    {
        self.priority
    }
}

/// Connects the write end of a pipe to a descriptor of the child process;
/// the read end is handed to the caller.
pub struct PipeFromChild {
    child_fd: i32,
    pipe_w: Option<i32>,
}

impl PipeFromChild {
    pub closed spec fn view(&self) -> IoConfigView {
        IoConfigView::PipeFromChild { child_fd: self.child_fd, pipe_w: self.pipe_w }
    }

    /// Takes a freshly created pipe `(read end, write end)`: connects its
    /// write end to `child_fd` of the child process and returns its read
    /// end, with the configuration to hand to `ChildBuilder::config_io`.
    /// For example, to read stdout of a child process:
    /// `PipeFromChild::new(1, pipe)`.
    pub fn new(child_fd: i32, pipe: (i32, i32)) -> (r: (i32, IOConfig))
        ensures
            r.0 == pipe.0,
            r.1.view() == (IoConfigView::PipeFromChild { child_fd, pipe_w: Some(pipe.1) }),
    {
        (pipe.0, IOConfig::PipeFromChild(PipeFromChild { child_fd, pipe_w: Some(pipe.1) }))
    }
}

impl ConfigureIO for PipeFromChild {
    fn child_post_fork(&self) -> (r: Vec<FdOp>)
        ensures
            r@ == self.view().child_ops(),
    {
        dup_onto_ops(self.pipe_w, self.child_fd)
    }

    fn parent_post_fork(&mut self) -> (r: Vec<FdOp>)
        ensures
            r@ == old(self).view().parent_ops(),
            final(self).view() == old(self).view().after_parent(),
    {
        close_held_ops(&mut self.pipe_w)
    }
}

/// Connects the read end of a pipe to a descriptor of the child process;
/// the write end is handed to the caller.
pub struct PipeToChild {
    child_fd: i32,
    pipe_r: Option<i32>,
}

impl PipeToChild {
    pub closed spec fn view(&self) -> IoConfigView {
        IoConfigView::PipeToChild { child_fd: self.child_fd, pipe_r: self.pipe_r }
    }

    /// Takes a freshly created pipe `(read end, write end)`: connects its
    /// read end to `child_fd` of the child process and returns its write
    /// end, with the configuration to hand to `ChildBuilder::config_io`.
    /// For example, to write to stdin of a child process:
    /// `PipeToChild::new(0, pipe)`.
    pub fn new(child_fd: i32, pipe: (i32, i32)) -> (r: (i32, IOConfig))
        ensures
            r.0 == pipe.1,
            r.1.view() == (IoConfigView::PipeToChild { child_fd, pipe_r: Some(pipe.0) }),
    {
        (pipe.1, IOConfig::PipeToChild(PipeToChild { child_fd, pipe_r: Some(pipe.0) }))
    }
}

impl ConfigureIO for PipeToChild {
    fn child_post_fork(&self) -> (r: Vec<FdOp>)
        ensures
            r@ == self.view().child_ops(),
    {
        dup_onto_ops(self.pipe_r, self.child_fd)
    }

    fn parent_post_fork(&mut self) -> (r: Vec<FdOp>)
        ensures
            r@ == old(self).view().parent_ops(),
            final(self).view() == old(self).view().after_parent(),
    {
        close_held_ops(&mut self.pipe_r)
    }
}

/// Takes a freshly created pipe `(read end, write end)` and returns both
/// ends as configurations: the read end for `read_fd` of one child
/// process, the write end for `write_fd` of another. These may be used to
/// set up pipelines between child processes by hand.
pub fn interprocess_pipe(read_fd: i32, write_fd: i32, pipe: (i32, i32)) -> (r: (
    InterprocessPipeRead,
    InterprocessPipeWrite,
))
    ensures
        r.0.view() == (IoConfigView::InterprocessPipeRead { child_fd: read_fd, read_fd: Some(pipe.0) }),
        r.1.view() == (IoConfigView::InterprocessPipeWrite {
            child_fd: write_fd,
            write_fd: Some(pipe.1),
        }),
{
    (
        InterprocessPipeRead { child_fd: read_fd, read_fd: Some(pipe.0) },
        InterprocessPipeWrite { child_fd: write_fd, write_fd: Some(pipe.1) },
    )
}

/// The write end of an interprocess pipe, for the child that writes.
pub struct InterprocessPipeWrite {
    write_fd: Option<i32>,
    child_fd: i32,
}

impl InterprocessPipeWrite {
    pub closed spec fn view(&self) -> IoConfigView {
        IoConfigView::InterprocessPipeWrite { child_fd: self.child_fd, write_fd: self.write_fd }
    }
}

impl ConfigureIO for InterprocessPipeWrite {
    fn child_post_fork(&self) -> (r: Vec<FdOp>)
        ensures
            r@ == self.view().child_ops(),
    {
        dup_onto_ops(self.write_fd, self.child_fd)
    }

    fn parent_post_fork(&mut self) -> (r: Vec<FdOp>)
        ensures
            r@ == old(self).view().parent_ops(),
            final(self).view() == old(self).view().after_parent(),
    {
        close_held_ops(&mut self.write_fd)
    }
}

/// The read end of an interprocess pipe, for the child that reads.
pub struct InterprocessPipeRead {
    read_fd: Option<i32>,
    child_fd: i32,
}

impl InterprocessPipeRead {
    pub closed spec fn view(&self) -> IoConfigView {
        IoConfigView::InterprocessPipeRead { child_fd: self.child_fd, read_fd: self.read_fd }
    }
}

impl ConfigureIO for InterprocessPipeRead {
    fn child_post_fork(&self) -> (r: Vec<FdOp>)
        ensures
            r@ == self.view().child_ops(),
    {
        dup_onto_ops(self.read_fd, self.child_fd)
    }

    fn parent_post_fork(&mut self) -> (r: Vec<FdOp>)
        ensures
            r@ == old(self).view().parent_ops(),
            final(self).view() == old(self).view().after_parent(),
    {
        close_held_ops(&mut self.read_fd)
    }
}

/// Redirects a descriptor of the child process to a descriptor that the
/// configuration owns (a file, for instance); the child closes the owned
/// descriptor after the `dup2`.
pub struct RedirectToFd {
    owned_fd: Option<i32>,
    child_fd: i32,
}

impl RedirectToFd {
    pub closed spec fn view(&self) -> IoConfigView {
        IoConfigView::RedirectToFd { child_fd: self.child_fd, owned_fd: self.owned_fd }
    }

    /// Redirects `child_fd` of the child process to `owned_fd`, which the
    /// configuration takes over.
    pub fn new(owned_fd: i32, child_fd: i32) -> (r: IOConfig)
        ensures
            r.view() == (IoConfigView::RedirectToFd { child_fd, owned_fd: Some(owned_fd) }),
    {
        IOConfig::RedirectToFd(RedirectToFd { owned_fd: Some(owned_fd), child_fd })
    }
}

impl ConfigureIO for RedirectToFd {
    fn child_post_fork(&self) -> (r: Vec<FdOp>)
        ensures
            r@ == self.view().child_ops(),
    {
        match self.owned_fd {
            Some(f) => vec![FdOp::Dup2 { oldfd: f, newfd: self.child_fd }, FdOp::CloseOrPanic { fd: f }],
            None => vec![FdOp::Panic],
        }
    }

    fn parent_post_fork(&mut self) -> (r: Vec<FdOp>)
        ensures
            r@ == old(self).view().parent_ops(),
            final(self).view() == old(self).view().after_parent(),
    {
        close_held_ops(&mut self.owned_fd)
    }
}

/// A descriptor configuration of any of the kinds above, as
/// `ChildBuilder::config_io` takes it.
pub enum IOConfig {
    Redirect(Redirect),
    PipeFromChild(PipeFromChild),
    PipeToChild(PipeToChild),
    InterprocessPipeRead(InterprocessPipeRead),
    InterprocessPipeWrite(InterprocessPipeWrite),
    RedirectToFd(RedirectToFd),
}

impl IOConfig {
    pub open spec fn view(&self) -> IoConfigView {
        match self {
            IOConfig::Redirect(c) => c.view(),
            IOConfig::PipeFromChild(c) => c.view(),
            IOConfig::PipeToChild(c) => c.view(),
            IOConfig::InterprocessPipeRead(c) => c.view(),
            IOConfig::InterprocessPipeWrite(c) => c.view(),
            IOConfig::RedirectToFd(c) => c.view(),
        }
    }
}

impl ConfigureIO for IOConfig {
    fn child_post_fork(&self) -> (r: Vec<FdOp>)
        ensures
            r@ == self.view().child_ops(),
    {
        match self {
            IOConfig::Redirect(c) => c.child_post_fork(),
            IOConfig::PipeFromChild(c) => c.child_post_fork(),
            IOConfig::PipeToChild(c) => c.child_post_fork(),
            IOConfig::InterprocessPipeRead(c) => c.child_post_fork(),
            IOConfig::InterprocessPipeWrite(c) => c.child_post_fork(),
            IOConfig::RedirectToFd(c) => c.child_post_fork(),
        }
    }

    fn parent_post_fork(&mut self) -> (r: Vec<FdOp>)
        ensures
            r@ == old(self).view().parent_ops(),
            final(self).view() == old(self).view().after_parent(),
    {
        match self {
            IOConfig::Redirect(c) => c.parent_post_fork(),
            IOConfig::PipeFromChild(c) => c.parent_post_fork(),
            IOConfig::PipeToChild(c) => c.parent_post_fork(),
            IOConfig::InterprocessPipeRead(c) => c.parent_post_fork(),
            IOConfig::InterprocessPipeWrite(c) => c.parent_post_fork(),
            IOConfig::RedirectToFd(c) => c.parent_post_fork(),
        }
    }

    fn priority(&self) -> (r: i32)
        ensures
            r == self.view().priority(),
    {
        match self {
            IOConfig::Redirect(c) => c.priority(),
            _ => DEFAULT_PRIORITY,
        }
    }
}

/// Holds of configurations of priority `p`.
pub open spec fn has_priority(p: i32) -> spec_fn(IoConfigView) -> bool {
    |c: IoConfigView| c.priority() == p
}

/// Holds of configurations of priority lower than `p`.
pub open spec fn below_priority(p: i32) -> spec_fn(IoConfigView) -> bool {
    |c: IoConfigView| c.priority() < p
}

/// The highest priority among the configurations of a non-empty sequence.
pub open spec fn max_priority(s: Seq<IoConfigView>) -> i32
    recommends
        s.len() > 0,
    decreases s.len(),
{
    if s.len() <= 1 {
        s[0].priority()
    } else {
        let m = max_priority(s.drop_last());
        if s.last().priority() > m {
            s.last().priority()
        } else {
            m
        }
    }
}

/// The order in which configurations are applied: all those of the highest
/// priority, in the order in which they were added, then the others in
/// this same order. That is, descending priority, and the order of
/// addition among equal priorities.
pub open spec fn priority_order(s: Seq<IoConfigView>) -> Seq<IoConfigView>
    decreases s.len(),
{
    if s.len() == 0 {
        s
    } else {
        let m = max_priority(s);
        proof {
            lemma_max_priority(s);
            lemma_partition_len(s, m);
        }
        s.filter(has_priority(m)) + priority_order(s.filter(below_priority(m)))
    }
}

/// The highest priority is that of some configuration, and no configuration
/// has a higher one.
pub proof fn lemma_max_priority(s: Seq<IoConfigView>)
    requires
        s.len() > 0,
    ensures
        forall|i: int| 0 <= i < s.len() ==> s[i].priority() <= max_priority(s),
        exists|i: int| 0 <= i < s.len() && s[i].priority() == max_priority(s),
    decreases s.len(),
{
    if s.len() > 1 {
        lemma_max_priority(s.drop_last());
        let m = max_priority(s.drop_last());
        let k = choose|i: int| 0 <= i < s.drop_last().len() && s.drop_last()[i].priority() == m;
        assert(s[k] == s.drop_last()[k]);
        assert forall|i: int| 0 <= i < s.len() implies s[i].priority() <= max_priority(s) by {
            if i < s.len() - 1 {
                assert(s[i] == s.drop_last()[i]);
            }
        }
        if s.last().priority() > m {
            assert(s[s.len() - 1].priority() == max_priority(s));
        }
    } else {
        assert(s[0].priority() == max_priority(s));
    }
}

/// Where no configuration has a priority above `m` and one has priority
/// `m`, those of priority `m` and those below `m` split the sequence.
pub proof fn lemma_partition_len(s: Seq<IoConfigView>, m: i32)
    requires
        forall|i: int| 0 <= i < s.len() ==> s[i].priority() <= m,
    ensures
        s.filter(has_priority(m)).len() + s.filter(below_priority(m)).len() == s.len(),
        (exists|i: int| 0 <= i < s.len() && s[i].priority() == m) ==> s.filter(
            below_priority(m),
        ).len() < s.len(),
    decreases s.len(),
{
    reveal(Seq::filter);
    if s.len() > 0 {
        let t = s.drop_last();
        assert forall|i: int| 0 <= i < t.len() implies t[i].priority() <= m by {
            assert(t[i] == s[i]);
        }
        lemma_partition_len(t, m);
        if exists|i: int| 0 <= i < s.len() && s[i].priority() == m {
            let k = choose|i: int| 0 <= i < s.len() && s[i].priority() == m;
            if k < s.len() - 1 {
                assert(t[k] == s[k]);
            }
        }
    }
}

/// Filtering by a condition that implies another, after filtering by the
/// other, is filtering by the first condition alone.
pub proof fn lemma_filter_narrower(
    s: Seq<IoConfigView>,
    wide: spec_fn(IoConfigView) -> bool,
    narrow: spec_fn(IoConfigView) -> bool,
)
    requires
        forall|c: IoConfigView| #[trigger] narrow(c) ==> wide(c),
    ensures
        s.filter(wide).filter(narrow) == s.filter(narrow),
    decreases s.len(),
{
    reveal(Seq::filter);
    if s.len() > 0 {
        lemma_filter_narrower(s.drop_last(), wide, narrow);
        let x = s.last();
        if wide(x) {
            s.drop_last().filter(wide).lemma_filter_push(x, narrow);
        }
    }
}

/// Filtering keeps a sequence whole where every element passes, and keeps
/// nothing where none does.
pub proof fn lemma_filter_all_or_none(s: Seq<IoConfigView>, pred: spec_fn(IoConfigView) -> bool)
    ensures
        (forall|i: int| 0 <= i < s.len() ==> pred(#[trigger] s[i])) ==> s.filter(pred) == s,
        (forall|i: int| 0 <= i < s.len() ==> !pred(#[trigger] s[i])) ==> s.filter(pred)
            == Seq::<IoConfigView>::empty(),
    decreases s.len(),
{
    reveal(Seq::filter);
    if s.len() > 0 {
        let t = s.drop_last();
        lemma_filter_all_or_none(t, pred);
        if forall|i: int| 0 <= i < s.len() ==> pred(#[trigger] s[i]) {
            assert forall|i: int| 0 <= i < t.len() implies pred(#[trigger] t[i]) by {
                assert(t[i] == s[i]);
            }
            assert(t.push(s.last()) =~= s);
        }
        if forall|i: int| 0 <= i < s.len() ==> !pred(#[trigger] s[i]) {
            assert forall|i: int| 0 <= i < t.len() implies !pred(#[trigger] t[i]) by {
                assert(t[i] == s[i]);
            }
            assert(!pred(s[s.len() - 1]));
        }
    } else {
        assert(s =~= Seq::<IoConfigView>::empty());
    }
}

/// Every configuration in the application order comes from the sequence.
pub proof fn lemma_priority_order_elements(s: Seq<IoConfigView>)
    ensures
        priority_order(s).len() == s.len(),
        forall|k: int| 0 <= k < priority_order(s).len() ==> s.contains(#[trigger] priority_order(s)[k]),
    decreases s.len(),
{
    if s.len() > 0 {
        let m = max_priority(s);
        lemma_max_priority(s);
        lemma_partition_len(s, m);
        let e = s.filter(has_priority(m));
        let l = s.filter(below_priority(m));
        lemma_priority_order_elements(l);
        let r = priority_order(l);
        assert(priority_order(s) == e + r);
        assert forall|k: int| 0 <= k < priority_order(s).len() implies s.contains(
            #[trigger] priority_order(s)[k],
        ) by {
            if k < e.len() {
                assert(e.contains(e[k]));
                s.lemma_filter_contains_rev(has_priority(m), e[k]);
            } else {
                assert(priority_order(s)[k] == r[k - e.len()]);
                assert(l.contains(r[k - e.len()]));
                s.lemma_filter_contains_rev(below_priority(m), r[k - e.len()]);
            }
        }
    }
}

/// Configurations are applied in descending order of priority.
pub proof fn lemma_priority_order_descending(s: Seq<IoConfigView>)
    ensures
        forall|i: int, j: int|
            0 <= i < j < priority_order(s).len() ==> #[trigger] priority_order(s)[i].priority()
                >= #[trigger] priority_order(s)[j].priority(),
    decreases s.len(),
{
    broadcast use vstd::seq_lib::group_filter_ensures;

    if s.len() > 0 {
        let m = max_priority(s);
        lemma_max_priority(s);
        lemma_partition_len(s, m);
        let e = s.filter(has_priority(m));
        let l = s.filter(below_priority(m));
        lemma_priority_order_descending(l);
        lemma_priority_order_elements(l);
        let r = priority_order(l);
        let o = priority_order(s);
        assert(o == e + r);
        assert forall|i: int, j: int| 0 <= i < j < o.len() implies #[trigger] o[i].priority()
            >= #[trigger] o[j].priority() by {
            if j < e.len() {
                assert(has_priority(m)(e[i]));
                assert(has_priority(m)(e[j]));
            } else if i < e.len() {
                assert(has_priority(m)(e[i]));
                assert(o[j] == r[j - e.len()]);
                assert(l.contains(r[j - e.len()]));
                let q = choose|q: int| 0 <= q < l.len() && l[q] == r[j - e.len()];
                assert(below_priority(m)(l[q]));
            } else {
                assert(o[i] == r[i - e.len()]);
                assert(o[j] == r[j - e.len()]);
            }
        }
    }
}

/// Among configurations of equal priority, the application order is the
/// order in which they were added, and none is lost or repeated: for every
/// priority, the configurations of that priority come out exactly as they
/// went in.
pub proof fn lemma_priority_order_stable(s: Seq<IoConfigView>, p: i32)
    ensures
        priority_order(s).filter(has_priority(p)) == s.filter(has_priority(p)),
    decreases s.len(),
{
    broadcast use vstd::seq_lib::group_filter_ensures;

    if s.len() == 0 {
        reveal(Seq::filter);
    } else {
        let m = max_priority(s);
        lemma_max_priority(s);
        lemma_partition_len(s, m);
        let e = s.filter(has_priority(m));
        let l = s.filter(below_priority(m));
        let r = priority_order(l);
        assert(priority_order(s) == e + r);
        Seq::filter_distributes_over_add(e, r, has_priority(p));
        lemma_priority_order_stable(l, p);
        // e holds priority m only; l holds priorities below m only.
        assert forall|i: int| 0 <= i < e.len() implies (#[trigger] e[i]).priority() == m by {
            assert(has_priority(m)(e[i]));
        }
        assert forall|i: int| 0 <= i < l.len() implies (#[trigger] l[i]).priority() < m by {
            assert(below_priority(m)(l[i]));
        }
        if p == m {
            lemma_filter_all_or_none(e, has_priority(p));
            lemma_filter_all_or_none(l, has_priority(p));
            assert(e.filter(has_priority(p)) == e);
            assert(r.filter(has_priority(p)) == Seq::<IoConfigView>::empty());
            assert(e + Seq::<IoConfigView>::empty() =~= e);
        } else if p > m {
            lemma_filter_all_or_none(e, has_priority(p));
            lemma_filter_all_or_none(l, has_priority(p));
            lemma_filter_all_or_none(s, has_priority(p));
            assert(Seq::<IoConfigView>::empty() + Seq::<IoConfigView>::empty() =~= Seq::<
                IoConfigView,
            >::empty());
        } else {
            lemma_filter_all_or_none(e, has_priority(p));
            lemma_filter_narrower(s, below_priority(m), has_priority(p));
            assert(Seq::<IoConfigView>::empty() + l.filter(has_priority(p)) =~= l.filter(
                has_priority(p),
            ));
        }
    }
}

/// The plain values of a sequence of configurations.
pub open spec fn views(s: Seq<IOConfig>) -> Seq<IoConfigView> {
    s.map_values(|c: IOConfig| c.view())
}

proof fn lemma_views_push(s: Seq<IOConfig>, c: IOConfig)
    ensures
        views(s.push(c)) == views(s).push(c.view()),
{
    assert(views(s.push(c)) =~= views(s).push(c.view()));
}

/// Puts configurations in the order in which they are applied (see
/// [`priority_order`]).
pub(crate) fn sort_by_priority(configs: Vec<IOConfig>) -> (r: Vec<IOConfig>)
    ensures
        views(r@) == priority_order(views(configs@)),
{
    let mut result: Vec<IOConfig> = Vec::new();
    let mut rem = configs;
    assert(views(result@) + priority_order(views(rem@)) =~= priority_order(views(configs@)));
    while rem.len() > 0
        invariant
            views(result@) + priority_order(views(rem@)) == priority_order(views(configs@)),
        decreases rem.len(),
    {
        let ghost rs = views(rem@);
        // the highest priority among the remaining configurations
        let mut m = rem[0].priority();
        let mut i: usize = 1;
        assert(rs.take(1).drop_last().len() == 0);
        while i < rem.len()
            invariant
                1 <= i <= rem.len(),
                rs == views(rem@),
                m == max_priority(rs.take(i as int)),
            decreases rem.len() - i,
        {
            let p = rem[i].priority();
            assert(rs.take(i + 1).drop_last() =~= rs.take(i as int));
            if p > m {
                m = p;
            }
            i = i + 1;
        }
        assert(rs.take(i as int) =~= rs);
        // hand out the remaining configurations in order
        let n = rem.len();
        let mut rev: Vec<IOConfig> = Vec::new();
        let mut src = rem;
        while src.len() > 0
            invariant
                src@ + rev@.reverse() == rem@,
            decreases src.len(),
        {
            let ghost before = src@;
            let x = src.pop().unwrap();
            proof {
                assert(before == src@.push(x));
                assert(rev@.push(x).reverse() =~= seq![x] + rev@.reverse());
                assert(src@ + (seq![x] + rev@.reverse()) =~= src@.push(x) + rev@.reverse());
            }
            rev.push(x);
        }
        assert(src@ =~= Seq::<IOConfig>::empty());
        assert(rev@.reverse() =~= rem@);
        let ghost result0 = views(result@);
        let mut lower: Vec<IOConfig> = Vec::new();
        let mut k: usize = 0;
        assert(rs.take(0) =~= Seq::<IoConfigView>::empty());
        proof {
            reveal(Seq::filter);
            assert(views(result@) =~= result0 + rs.take(0).filter(has_priority(m)));
            lemma_max_priority(rs);
        }
        while rev.len() > 0
            invariant
                k + rev@.len() == rs.len(),
                rs == views(rem@),
                rs.len() == rem@.len(),
                rs.len() == n,
                rev@.reverse() == rem@.skip(k as int),
                views(result@) == result0 + rs.take(k as int).filter(has_priority(m)),
                views(lower@) == rs.take(k as int).filter(below_priority(m)),
                forall|j: int| 0 <= j < rs.len() ==> rs[j].priority() <= m,
            decreases rev.len(),
        {
            let ghost before = rev@;
            let c = rev.pop().unwrap();
            proof {
                assert(before == rev@.push(c));
                assert(before.reverse()[0] == c);
                assert(rem@.skip(k as int)[0] == rem@[k as int]);
                assert(c == rem@[k as int]);
                assert(c.view() == rs[k as int]);
                assert(rev@.reverse() =~= rem@.skip(k + 1)) by {
                    assert(before.reverse() =~= seq![c] + rev@.reverse());
                    assert(rem@.skip(k + 1) =~= rem@.skip(k as int).drop_first());
                    assert((seq![c] + rev@.reverse()).drop_first() =~= rev@.reverse());
                }
                assert(rs.take(k + 1) =~= rs.take(k as int).push(c.view()));
                rs.take(k as int).lemma_filter_push(c.view(), has_priority(m));
                rs.take(k as int).lemma_filter_push(c.view(), below_priority(m));
            }
            if c.priority() == m {
                proof {
                    lemma_views_push(result@, c);
                }
                result.push(c);
                proof {
                    assert(result0 + rs.take(k as int).filter(has_priority(m)).push(c.view())
                        =~= (result0 + rs.take(k as int).filter(has_priority(m))).push(c.view()));
                }
            } else {
                proof {
                    lemma_views_push(lower@, c);
                }
                lower.push(c);
            }
            k = k + 1;
        }
        proof {
            assert(rs.take(k as int) =~= rs);
            lemma_max_priority(rs);
            lemma_partition_len(rs, m);
            assert(priority_order(rs) == rs.filter(has_priority(m)) + priority_order(
                rs.filter(below_priority(m)),
            ));
            assert(views(result@) + priority_order(views(lower@)) =~= result0 + priority_order(rs));
        }
        rem = lower;
    }
    assert(views(rem@) =~= Seq::<IoConfigView>::empty());
    assert(views(result@) + priority_order(views(rem@)) =~= views(result@));
    result
}

} // verus!
