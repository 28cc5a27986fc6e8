use vstd::prelude::*;
use crate::utils::{Argument, nul_free, bytes_eq, bytes_nul_free, contains_bytes};

verus! {

/// The `=` byte that separates a variable's name from its value.
pub const EQUALS_SIGN: u8 = 61;

/// The map that a list of `(name, value)` pairs sets, a later pair for a
/// name overriding an earlier one.
pub open spec fn pairs_map(ps: Seq<(Seq<u8>, Seq<u8>)>) -> Map<Seq<u8>, Seq<u8>>
    decreases ps.len(),
{
    if ps.len() == 0 {
        Map::empty()
    } else {
        pairs_map(ps.drop_last()).insert(ps.last().0, ps.last().1)
    }
}

/// The names of a list of `(name, value)` pairs.
pub open spec fn pair_names(ps: Seq<(Seq<u8>, Seq<u8>)>) -> Seq<Seq<u8>> {
    ps.map_values(|e: (Seq<u8>, Seq<u8>)| e.0)
}

/// In a list of pairs whose names are distinct, each pair gives the value
/// of its name, and the names are those of the pairs.
pub proof fn lemma_pairs_map_lookup(ps: Seq<(Seq<u8>, Seq<u8>)>)
    requires
        pair_names(ps).no_duplicates(),
    ensures
        forall|i: int| 0 <= i < ps.len() ==> pairs_map(ps)[#[trigger] ps[i].0] == ps[i].1,
        pairs_map(ps).dom() == pair_names(ps).to_set(),
    decreases ps.len(),
{
    if ps.len() > 0 {
        let t = ps.drop_last();
        assert(pair_names(t) =~= pair_names(ps).drop_last());
        lemma_pairs_map_lookup(t);
        assert forall|i: int| 0 <= i < ps.len() implies pairs_map(ps)[#[trigger] ps[i].0]
            == ps[i].1 by {
            if i < ps.len() - 1 {
                assert(t[i] == ps[i]);
                assert(pair_names(ps)[i] != pair_names(ps)[ps.len() - 1]);
            }
        }
        assert(pairs_map(ps).dom() =~= pair_names(ps).to_set()) by {
            broadcast use vstd::seq_lib::group_seq_properties;

            assert(pair_names(ps) =~= pair_names(t).push(ps.last().0));
        }
    } else {
        assert(pairs_map(ps).dom() =~= pair_names(ps).to_set());
    }
}

/// Replacing the value of a pair, in a list of pairs whose names are
/// distinct, sets that name to the new value.
pub proof fn lemma_pairs_map_update(ps: Seq<(Seq<u8>, Seq<u8>)>, j: int, v: Seq<u8>)
    requires
        pair_names(ps).no_duplicates(),
        0 <= j < ps.len(),
    ensures
        pairs_map(ps.update(j, (ps[j].0, v))) == pairs_map(ps).insert(ps[j].0, v),
    decreases ps.len(),
{
    let k = ps[j].0;
    let qs = ps.update(j, (k, v));
    if j == ps.len() - 1 {
        assert(qs.drop_last() =~= ps.drop_last());
        assert(pairs_map(qs) =~= pairs_map(ps).insert(k, v));
    } else {
        let t = ps.drop_last();
        assert(pair_names(t) =~= pair_names(ps).drop_last());
        lemma_pairs_map_update(t, j, v);
        assert(qs.drop_last() =~= t.update(j, (k, v)));
        assert(pair_names(ps)[j] != pair_names(ps)[ps.len() - 1]);
        assert(pairs_map(qs) =~= pairs_map(ps).insert(k, v));
    }
}

/// The plain values of a list of `(name, value)` byte string pairs.
pub open spec fn pairs_view(v: Seq<(Vec<u8>, Vec<u8>)>) -> Seq<(Seq<u8>, Seq<u8>)> {
    v.map_values(|e: (Vec<u8>, Vec<u8>)| (e.0@, e.1@))
}

/// Environment variables by name, kept in the order in which they were
/// first set.
pub struct EnvMap {
    entries: Vec<(Vec<u8>, Vec<u8>)>,
}

impl View for EnvMap {
    type V = Map<Seq<u8>, Seq<u8>>;

    /// The variables by name.
    open spec fn view(&self) -> Map<Seq<u8>, Seq<u8>> {
        pairs_map(self.entries())
    }
}

impl EnvMap {
    #[verifier::type_invariant]
    closed spec fn inv(self) -> bool {
        pair_names(pairs_view(self.entries@)).no_duplicates()
    }

    /// The `(name, value)` pairs, in order.
    pub closed spec fn entries(&self) -> Seq<(Seq<u8>, Seq<u8>)> {
        pairs_view(self.entries@)
    }


    /// An empty map.
    pub fn new() -> (r: Self)
        ensures
            r.entries() == Seq::<(Seq<u8>, Seq<u8>)>::empty(),
            r@ == Map::<Seq<u8>, Seq<u8>>::empty(),
    {
        let r = EnvMap { entries: Vec::new() };
        assert(r.entries() =~= Seq::<(Seq<u8>, Seq<u8>)>::empty());
        r
    }

    /// The number of variables.
    pub fn len(&self) -> (r: usize)
        ensures
            r == self.entries().len(),
            pair_names(self.entries()).no_duplicates(),
    {
        proof {
            use_type_invariant(self);
        }
        self.entries.len()
    }

    /// The `i`-th variable, as `(name, value)`.
    pub fn entry(&self, i: usize) -> (r: (&Vec<u8>, &Vec<u8>))
        requires
            i < self.entries().len(),
        ensures
            r.0@ == self.entries()[i as int].0,
            r.1@ == self.entries()[i as int].1,
    {
        let e = &self.entries[i];
        (&e.0, &e.1)
    }

    /// Sets variable `k` to `v`, replacing its value where it is set
    /// already.
    pub fn insert(&mut self, k: Vec<u8>, v: Vec<u8>)
        ensures
            final(self)@ == old(self)@.insert(k@, v@),
    {
        proof {
            use_type_invariant(&*self);
        }
        let ghost es = old(self).entries();
        let mut entries: Vec<(Vec<u8>, Vec<u8>)> = Vec::new();
        std::mem::swap(&mut entries, &mut self.entries);
        assert(pairs_view(entries@) == es);
        let mut i: usize = 0;
        while i < entries.len()
            invariant
                es == pairs_view(entries@),
                es == old(self).entries(),
                pair_names(es).no_duplicates(),
                i <= es.len(),
                forall|j: int| 0 <= j < i ==> es[j].0 != k@,
            decreases es.len() - i,
        {
            if bytes_eq(&entries[i].0, &k) {
                proof {
                    assert(es[i as int].0 == k@);
                    lemma_pairs_map_update(es, i as int, v@);
                    assert(pair_names(es.update(i as int, (k@, v@))) =~= pair_names(es));
                }
                entries.set(i, (k, v));
                assert(pairs_view(entries@) =~= es.update(i as int, (es[i as int].0, v@)));
                self.entries = entries;
                return ;
            }
            i = i + 1;
        }
        proof {
            assert(pair_names(es.push((k@, v@))) =~= pair_names(es).push(k@));
            assert(!pair_names(es).contains(k@));
            assert(es.push((k@, v@)).drop_last() =~= es);
        }
        entries.push((k, v));
        assert(pairs_view(entries@) =~= es.push((k@, v@)));
        self.entries = entries;
    }
}

/// A copy of a byte string.
pub(crate) fn copy_bytes(a: &Vec<u8>) -> (r: Vec<u8>)
    ensures
        r@ == a@,
{
    let mut r: Vec<u8> = Vec::new();
    let mut i: usize = 0;
    while i < a.len()
        invariant
            i <= a@.len(),
            r@ == a@.take(i as int),
        decreases a@.len() - i,
    {
        r.push(a[i]);
        assert(a@.take(i + 1) =~= a@.take(i as int).push(a@[i as int]));
        i = i + 1;
    }
    assert(a@.take(i as int) =~= a@);
    r
}

/// The environment entry `name=value`.
pub open spec fn env_line(name: Seq<u8>, value: Seq<u8>) -> Seq<u8> {
    name + seq![EQUALS_SIGN] + value
}

/// Whether `lines` lists the variables of `m` as `name=value` entries,
/// each variable exactly once, in some order.
pub open spec fn is_env_listing(lines: Seq<Seq<u8>>, m: Map<Seq<u8>, Seq<u8>>) -> bool {
    exists|names: Seq<Seq<u8>>|
        {
            &&& names.no_duplicates()
            &&& names.to_set() == m.dom()
            &&& names.len() == lines.len()
            &&& forall|i: int| 0 <= i < lines.len() ==> #[trigger] lines[i] == env_line(names[i], m[names[i]])
        }
}

/// Whether every name and value of `m` is free of zero bytes.
pub open spec fn map_nul_free(m: Map<Seq<u8>, Seq<u8>>) -> bool {
    forall|k: Seq<u8>| #[trigger] m.dom().contains(k) ==> nul_free(k) && nul_free(m[k])
}

/// Whether every name and value of the pairs is free of zero bytes.
pub open spec fn pairs_nul_free(ps: Seq<(Seq<u8>, Seq<u8>)>) -> bool {
    forall|i: int| 0 <= i < ps.len() ==> nul_free(#[trigger] ps[i].0) && nul_free(ps[i].1)
}

/// The plain values of a list of arguments.
pub open spec fn arguments_view(v: Seq<Argument>) -> Seq<Seq<u8>> {
    v.map_values(|a: Argument| a.view())
}

/// Every variable that a list of pairs sets comes from one of its pairs.
pub proof fn lemma_pairs_map_from(ps: Seq<(Seq<u8>, Seq<u8>)>)
    ensures
        forall|k: Seq<u8>| #[trigger] pairs_map(ps).dom().contains(k) ==> exists|i: int|
            0 <= i < ps.len() && ps[i].0 == k && ps[i].1 == pairs_map(ps)[k],
    decreases ps.len(),
{
    if ps.len() > 0 {
        let t = ps.drop_last();
        lemma_pairs_map_from(t);
        assert forall|k: Seq<u8>| #[trigger] pairs_map(ps).dom().contains(k) implies exists|i: int|
            0 <= i < ps.len() && ps[i].0 == k && ps[i].1 == pairs_map(ps)[k] by {
            if k == ps.last().0 {
                assert(ps[ps.len() - 1].0 == k);
            } else {
                assert(pairs_map(t).dom().contains(k));
                let i = choose|i: int| 0 <= i < t.len() && t[i].0 == k && t[i].1 == pairs_map(t)[k];
                assert(ps[i] == t[i]);
            }
        }
    }
}

/// Lists the variables of `env` as `name=value` entries, one per variable.
pub fn make_cstring_env(env: EnvMap) -> (r: Vec<Argument>)
    requires
        map_nul_free(env@),
    ensures
        is_env_listing(arguments_view(r@), env@),
{
    let n = env.len();
    let ghost es = env.entries();
    proof {
        lemma_pairs_map_lookup(es);
    }
    let mut vars: Vec<Argument> = Vec::new();
    let mut i: usize = 0;
    while i < n
        invariant
            n == es.len(),
            es == env.entries(),
            pair_names(es).no_duplicates(),
            map_nul_free(env@),
            forall|j: int| 0 <= j < es.len() ==> pairs_map(es)[#[trigger] es[j].0] == es[j].1,
            pairs_map(es).dom() == pair_names(es).to_set(),
            i <= n,
            vars@.len() == i,
            forall|j: int| 0 <= j < i ==> (#[trigger] vars@[j]).view() == env_line(es[j].0, es[j].1),
        decreases n - i,
    {
        let (k, v) = env.entry(i);
        proof {
            assert(pair_names(es)[i as int] == es[i as int].0);
            assert(pair_names(es).to_set().contains(es[i as int].0));
            assert(env@.dom().contains(k@));
        }
        let mut buf = copy_bytes(k);
        buf.push(EQUALS_SIGN);
        let mut j: usize = 0;
        let ghost head = buf@;
        while j < v.len()
            invariant
                j <= v@.len(),
                buf@ == head + v@.take(j as int),
            decreases v@.len() - j,
        {
            buf.push(v[j]);
            assert(v@.take(j + 1) =~= v@.take(j as int).push(v@[j as int]));
            assert(head + v@.take(j + 1) =~= (head + v@.take(j as int)).push(v@[j as int]));
            j = j + 1;
        }
        assert(v@.take(j as int) =~= v@);
        assert(buf@ =~= env_line(k@, v@));
        assert(nul_free(buf@)) by {
            assert forall|q: int| 0 <= q < buf@.len() implies buf@[q] != 0 by {
                if q < k@.len() {
                    assert(buf@[q] == k@[q]);
                } else if q > k@.len() {
                    assert(buf@[q] == v@[q - k@.len() - 1]);
                }
            }
        }
        match Argument::new(buf) {
            Ok(a) => {
                vars.push(a);
            },
            Err(_) => {
                assert(false);
            },
        }
        i = i + 1;
    }
    proof {
        let names = pair_names(es);
        let lines = arguments_view(vars@);
        assert forall|q: int| 0 <= q < lines.len() implies #[trigger] lines[q] == env_line(
            names[q],
            env@[names[q]],
        ) by {
            assert(lines[q] == vars@[q].view());
            assert(names[q] == es[q].0);
        }
        assert(names.to_set() == env@.dom());
    }
    vars
}

/// What a child inherits of its parent's environment: no variable, the
/// variables not listed, or only the variables listed.
#[derive(Debug)]
pub enum Inherit {
    /// Inherit every variable except those listed (blacklist).
    Remove(Vec<Vec<u8>>),
    /// Inherit nothing: the environment starts empty.
    Clear,
    /// Inherit only the variables listed (whitelist).
    Keep(Vec<Vec<u8>>),
}

/// The plain values of an inheritance policy.
pub enum InheritView {
    Remove(Seq<Seq<u8>>),
    Clear,
    Keep(Seq<Seq<u8>>),
}

impl InheritView {
    /// Whether a variable of the parent's environment named `k` passes to
    /// the child.
    pub open spec fn allows(self, k: Seq<u8>) -> bool {
        match self {
            InheritView::Remove(list) => !list.contains(k),
            InheritView::Clear => false,
            InheritView::Keep(list) => list.contains(k),
        }
    }

    /// The policy after one more variable is removed: a blacklist, extended
    /// where the policy was one already.
    pub open spec fn with_removed(self, k: Seq<u8>) -> InheritView {
        match self {
            InheritView::Remove(list) => InheritView::Remove(list.push(k)),
            _ => InheritView::Remove(seq![k]),
        }
    }

    /// The policy after one more variable is kept: a whitelist, extended
    /// where the policy was one already.
    pub open spec fn with_kept(self, k: Seq<u8>) -> InheritView {
        match self {
            InheritView::Keep(list) => InheritView::Keep(list.push(k)),
            _ => InheritView::Keep(seq![k]),
        }
    }
}

/// The variables of the parent's environment `parent` that the policy lets
/// through, a later pair for a name overriding an earlier one.
pub open spec fn inherited(policy: InheritView, parent: Seq<(Seq<u8>, Seq<u8>)>) -> Map<
    Seq<u8>,
    Seq<u8>,
> {
    pairs_map(parent.filter(|e: (Seq<u8>, Seq<u8>)| policy.allows(e.0)))
}

/// Removing `k` excludes `k` and keeps excluded every name excluded before,
/// where the policy was already a blacklist; from a whitelist or a cleared
/// policy it starts a blacklist of `k` alone, under which every other name
/// passes.
pub proof fn lemma_remove_excludes(p: InheritView, k: Seq<u8>, x: Seq<u8>)
    ensures
        p.with_removed(k) is Remove,
        !p.with_removed(k).allows(k),
        p is Remove ==> (p.with_removed(k).allows(x) <==> (p.allows(x) && x != k)),
        !(p is Remove) ==> (p.with_removed(k).allows(x) <==> x != k),
{
    broadcast use vstd::seq_lib::group_seq_properties;

    match p {
        InheritView::Remove(list) => {
            assert(list.push(k).contains(x) <==> (list.contains(x) || x == k));
        },
        _ => {
            assert(seq![k].contains(x) <==> x == k) by {
                if x == k {
                    assert(seq![k][0] == k);
                }
            }
        },
    }
}

/// Keeping `k` lets `k` through whatever the policy was, and keeps every
/// name kept before where the policy was already a whitelist; from a
/// blacklist or a cleared policy it starts a whitelist of `k` alone.
pub proof fn lemma_keep_lets_through(p: InheritView, k: Seq<u8>, x: Seq<u8>)
    ensures
        p.with_kept(k) is Keep,
        p.with_kept(k).allows(k),
        p is Keep ==> (p.with_kept(k).allows(x) <==> (p.allows(x) || x == k)),
        !(p is Keep) ==> (p.with_kept(k).allows(x) <==> x == k),
{
    broadcast use vstd::seq_lib::group_seq_properties;

    match p {
        InheritView::Keep(list) => {
            assert(list.push(k).contains(x) <==> (list.contains(x) || x == k));
            assert(list.push(k)[list.len() as int] == k);
        },
        _ => {
            assert(seq![k][0] == k);
            assert(seq![k].contains(x) <==> x == k);
        },
    }
}

/// After `remove(k)` no parent variable named `k` is inherited; after
/// `keep(k)` every parent variable named `k` is.
pub proof fn lemma_remove_keep_inherited(p: InheritView, parent: Seq<(Seq<u8>, Seq<u8>)>, k: Seq<u8>)
    ensures
        !inherited(p.with_removed(k), parent).dom().contains(k),
        pair_names(parent).contains(k) ==> inherited(p.with_kept(k), parent).dom().contains(k),
{
    lemma_remove_excludes(p, k, k);
    lemma_keep_lets_through(p, k, k);
    lemma_inherited_names(p.with_removed(k), parent, k);
    lemma_inherited_names(p.with_kept(k), parent, k);
}

impl View for Inherit {
    type V = InheritView;

    open spec fn view(&self) -> InheritView {
        match self {
            Inherit::Remove(list) => InheritView::Remove(list.deep_view()),
            Inherit::Clear => InheritView::Clear,
            Inherit::Keep(list) => InheritView::Keep(list.deep_view()),
        }
    }
}

impl Default for Inherit {
    /// Inherit everything.
    fn default() -> (r: Self)
        ensures
            r@ == InheritView::Remove(Seq::empty()),
    {
        let list: Vec<Vec<u8>> = Vec::new();
        assert(list.deep_view() =~= Seq::<Seq<u8>>::empty());
        Inherit::Remove(list)
    }
}

/// A list of byte strings with one more at its end.
fn push_name(list: &mut Vec<Vec<u8>>, k: Vec<u8>)
    ensures
        final(list).deep_view() == old(list).deep_view().push(k@),
{
    let ghost kk = k@;
    list.push(k);
    assert(list@[list@.len() - 1].deep_view() =~= kk);
    assert(list.deep_view() =~= old(list).deep_view().push(kk));
}

impl Inherit {
    /// Inherit nothing.
    pub fn clear(&mut self)
        ensures
            final(self)@ == InheritView::Clear,
    {
        *self = Inherit::Clear;
    }

    /// Do not inherit `k`; the policy becomes a blacklist if it was not one.
    pub fn remove(&mut self, k: Vec<u8>)
        ensures
            final(self)@ == old(self)@.with_removed(k@),
    {
        match self {
            Inherit::Remove(list) => {
                push_name(list, k);
            },
            _ => {
                let mut list: Vec<Vec<u8>> = Vec::new();
                push_name(&mut list, k);
                assert(list.deep_view() =~= seq![k@]);
                *self = Inherit::Remove(list);
            },
        }
    }

    /// Inherit `k`; the policy becomes a whitelist if it was not one.
    pub fn keep(&mut self, k: Vec<u8>)
        ensures
            final(self)@ == old(self)@.with_kept(k@),
    {
        match self {
            Inherit::Keep(list) => {
                push_name(list, k);
            },
            _ => {
                let mut list: Vec<Vec<u8>> = Vec::new();
                push_name(&mut list, k);
                assert(list.deep_view() =~= seq![k@]);
                *self = Inherit::Keep(list);
            },
        }
    }

    /// Whether a variable named `k` passes to the child.
    fn allows(&self, k: &Vec<u8>) -> (r: bool)
        ensures
            r == self@.allows(k@),
    {
        match self {
            Inherit::Remove(list) => !contains_bytes(list, k),
            Inherit::Clear => false,
            Inherit::Keep(list) => contains_bytes(list, k),
        }
    }

    /// The variables of the parent's environment `parent` (as
    /// `(name, value)` pairs) that the policy lets through.
    pub fn environment(&self, parent: &Vec<(Vec<u8>, Vec<u8>)>) -> (r: EnvMap)
        ensures
            r@ == inherited(self@, pairs_view(parent@)),
    {
        let mut env = EnvMap::new();
        let ghost ps = pairs_view(parent@);
        let ghost allow = |e: (Seq<u8>, Seq<u8>)| self@.allows(e.0);
        let mut i: usize = 0;
        proof {
            reveal(Seq::filter);
            assert(ps.take(0) =~= Seq::<(Seq<u8>, Seq<u8>)>::empty());
        }
        while i < parent.len()
            invariant
                ps == pairs_view(parent@),
                allow == (|e: (Seq<u8>, Seq<u8>)| self@.allows(e.0)),
                i <= parent@.len(),
                env@ == pairs_map(ps.take(i as int).filter(allow)),
            decreases parent@.len() - i,
        {
            let k = &parent[i].0;
            let v = &parent[i].1;
            proof {
                assert(ps[i as int] == (k@, v@));
                assert(ps.take(i + 1) =~= ps.take(i as int).push(ps[i as int]));
                ps.take(i as int).lemma_filter_push(ps[i as int], allow);
                let f = ps.take(i as int).filter(allow);
                assert(f.push((k@, v@)).drop_last() =~= f);
            }
            if self.allows(k) {
                env.insert(copy_bytes(k), copy_bytes(v));
            }
            i = i + 1;
        }
        assert(ps.take(i as int) =~= ps);
        env
    }
}

/// Constructs an environment: a policy for inheriting the variables of the
/// parent process, and variables to set or override.
pub struct EnvironmentBuilder {
    inherit: Inherit,
    set: EnvMap,
}

impl Default for EnvironmentBuilder {
    /// See [`EnvironmentBuilder::new`].
    fn default() -> (r: Self)
        ensures
            r.policy() == InheritView::Remove(Seq::empty()),
            r.overrides() == Map::<Seq<u8>, Seq<u8>>::empty(),
    {
        EnvironmentBuilder::new()
    }
}

/// Data structure that represents a process environment: its
/// `name=value` entries.
pub type Environment = Vec<Argument>;

impl EnvironmentBuilder {
    /// The inheritance policy.
    pub closed spec fn policy(&self) -> InheritView {
        self.inherit@
    }

    /// The variables to set in the child, by name.
    pub closed spec fn overrides(&self) -> Map<Seq<u8>, Seq<u8>> {
        self.set@
    }

    /// A builder with the policy to inherit the whole environment of the
    /// parent process, setting nothing.
    pub fn new() -> (r: Self)
        ensures
            r.policy() == InheritView::Remove(Seq::empty()),
            r.overrides() == Map::<Seq<u8>, Seq<u8>>::empty(),
    {
        EnvironmentBuilder { inherit: Inherit::default(), set: EnvMap::new() }
    }

    /// Configures the child to start with an empty environment.
    pub fn clear(&mut self) -> (r: &mut Self)
        ensures
            r.policy() == InheritView::Clear,
            r.overrides() == old(self).overrides(),
            *final(self) == *final(r),
    {
        self.inherit.clear();
        self
    }

    /// Sets variable `k` to `v` in the child's environment.
    pub fn set(&mut self, k: Vec<u8>, v: Vec<u8>) -> (r: &mut Self)
        ensures
            r.policy() == old(self).policy(),
            r.overrides() == old(self).overrides().insert(k@, v@),
            *final(self) == *final(r),
    {
        self.set.insert(k, v);
        self
    }

    /// Inherits only the variables kept (whitelist policy).
    pub fn keep(&mut self, k: Vec<u8>) -> (r: &mut Self)
        ensures
            r.policy() == old(self).policy().with_kept(k@),
            r.overrides() == old(self).overrides(),
            *final(self) == *final(r),
    {
        self.inherit.keep(k);
        self
    }

    /// Inherits all variables except those removed (blacklist policy).
    pub fn remove(&mut self, k: Vec<u8>) -> (r: &mut Self)
        ensures
            r.policy() == old(self).policy().with_removed(k@),
            r.overrides() == old(self).overrides(),
            *final(self) == *final(r),
    {
        self.inherit.remove(k);
        self
    }

    /// Whether every variable set on the builder has a name and a value free
    /// of zero bytes, as [`EnvironmentBuilder::realize`] needs.
    pub fn overrides_nul_free(&self) -> (r: bool)
        ensures
            r == map_nul_free(self.overrides()),
    {
        let n = self.set.len();
        let ghost es = self.set.entries();
        proof {
            lemma_pairs_map_lookup(es);
            lemma_pairs_map_from(es);
        }
        let mut i: usize = 0;
        while i < n
            invariant
                n == es.len(),
                es == self.set.entries(),
                pair_names(es).no_duplicates(),
                i <= n,
                forall|j: int| 0 <= j < i ==> nul_free(#[trigger] es[j].0) && nul_free(es[j].1),
            decreases n - i,
        {
            let (k, v) = self.set.entry(i);
            if !bytes_nul_free(k) || !bytes_nul_free(v) {
                proof {
                    lemma_pairs_map_lookup(es);
                    assert(pairs_map(es)[es[i as int].0] == es[i as int].1);
                    assert(pair_names(es)[i as int] == es[i as int].0);
                    assert(pairs_map(es).dom().contains(es[i as int].0));
                }
                return false;
            }
            assert(nul_free(es[i as int].0) && nul_free(es[i as int].1));
            assert forall|j: int| 0 <= j < i + 1 implies nul_free(#[trigger] es[j].0) && nul_free(
                es[j].1,
            ) by {
                if j < i {
                } else {
                    assert(j == i);
                }
            }
            i = i + 1;
        }
        proof {
            assert forall|k: Seq<u8>| #[trigger] self.overrides().dom().contains(k) implies nul_free(
                k,
            ) && nul_free(self.overrides()[k]) by {
                let q = choose|q: int|
                    0 <= q < es.len() && es[q].0 == k && es[q].1 == pairs_map(es)[k];
            }
        }
        true
    }

    /// The environment for the child: the variables of the parent's
    /// environment `parent` that the policy lets through, overridden by
    /// those set on the builder, as `name=value` entries.
    pub fn realize(self, parent: &Vec<(Vec<u8>, Vec<u8>)>) -> (r: Environment)
        requires
            pairs_nul_free(pairs_view(parent@)),
            map_nul_free(self.overrides()),
        ensures
            is_env_listing(
                arguments_view(r@),
                inherited(self.policy(), pairs_view(parent@)).union_prefer_right(self.overrides()),
            ),
    {
        let mut env = self.inherit.environment(parent);
        let ghost base = env@;
        let n = self.set.len();
        let ghost es = self.set.entries();
        let mut i: usize = 0;
        assert(es.take(0) =~= Seq::<(Seq<u8>, Seq<u8>)>::empty());
        assert(base.union_prefer_right(pairs_map(es.take(0))) =~= base);
        while i < n
            invariant
                n == es.len(),
                es == self.set.entries(),
                i <= n,
                env@ == base.union_prefer_right(pairs_map(es.take(i as int))),
            decreases n - i,
        {
            let (k, v) = self.set.entry(i);
            proof {
                assert(es.take(i + 1) =~= es.take(i as int).push(es[i as int]));
                assert(es.take(i as int).push(es[i as int]).drop_last() =~= es.take(i as int));
                assert(base.union_prefer_right(pairs_map(es.take(i as int))).insert(k@, v@)
                    =~= base.union_prefer_right(pairs_map(es.take(i as int)).insert(k@, v@)));
            }
            env.insert(copy_bytes(k), copy_bytes(v));
            i = i + 1;
        }
        assert(es.take(n as int) =~= es);
        proof {
            let ps = pairs_view(parent@);
            let allow = |e: (Seq<u8>, Seq<u8>)| self.policy().allows(e.0);
            let fs = ps.filter(allow);
            lemma_pairs_map_from(fs);
            assert forall|k: Seq<u8>| #[trigger] env@.dom().contains(k) implies nul_free(k)
                && nul_free(env@[k]) by {
                if self.overrides().dom().contains(k) {
                } else {
                    assert(base.dom().contains(k));
                    let q = choose|q: int|
                        0 <= q < fs.len() && fs[q].0 == k && fs[q].1 == pairs_map(fs)[k];
                    assert(fs.contains(fs[q]));
                    ps.lemma_filter_contains_rev(allow, fs[q]);
                    let w = choose|w: int| 0 <= w < ps.len() && ps[w] == fs[q];
                    assert(nul_free(ps[w].0));
                }
            }
        }
        make_cstring_env(env)
    }
}


/// A copy of an environment.
pub fn duplicate_env(env: &Environment) -> (r: Environment)
    ensures
        arguments_view(r@) == arguments_view(env@),
{
    let mut r: Environment = Vec::new();
    let mut i: usize = 0;
    while i < env.len()
        invariant
            i <= env@.len(),
            arguments_view(r@) == arguments_view(env@.take(i as int)),
        decreases env@.len() - i,
    {
        let a = env[i].duplicate();
        proof {
            assert(env@.take(i + 1) =~= env@.take(i as int).push(env@[i as int]));
            assert(arguments_view(r@.push(a)) =~= arguments_view(r@).push(a.view()));
            assert(arguments_view(env@.take(i as int).push(env@[i as int])) =~= arguments_view(
                env@.take(i as int),
            ).push(env@[i as int].view()));
        }
        r.push(a);
        i = i + 1;
    }
    assert(env@.take(i as int) =~= env@);
    r
}

/// Filtering by a condition that no element meets leaves nothing; by one
/// that every element meets, leaves everything.
proof fn lemma_filter_pairs(ps: Seq<(Seq<u8>, Seq<u8>)>, pred: spec_fn((Seq<u8>, Seq<u8>)) -> bool)
    ensures
        (forall|i: int| 0 <= i < ps.len() ==> !pred(#[trigger] ps[i])) ==> ps.filter(pred)
            == Seq::<(Seq<u8>, Seq<u8>)>::empty(),
        (forall|i: int| 0 <= i < ps.len() ==> pred(#[trigger] ps[i])) ==> ps.filter(pred) == ps,
    decreases ps.len(),
{
    reveal(Seq::filter);
    if ps.len() > 0 {
        let t = ps.drop_last();
        lemma_filter_pairs(t, pred);
        if forall|i: int| 0 <= i < ps.len() ==> !pred(#[trigger] ps[i]) {
            assert forall|i: int| 0 <= i < t.len() implies !pred(#[trigger] t[i]) by {
                assert(t[i] == ps[i]);
            }
            assert(!pred(ps[ps.len() - 1]));
        }
        if forall|i: int| 0 <= i < ps.len() ==> pred(#[trigger] ps[i]) {
            assert forall|i: int| 0 <= i < t.len() implies pred(#[trigger] t[i]) by {
                assert(t[i] == ps[i]);
            }
            assert(pred(ps[ps.len() - 1]));
            assert(t.push(ps.last()) =~= ps);
        }
    } else {
        assert(ps =~= Seq::<(Seq<u8>, Seq<u8>)>::empty());
    }
}

/// A child whose environment was cleared inherits no variable.
pub proof fn lemma_clear_inherits_nothing(parent: Seq<(Seq<u8>, Seq<u8>)>)
    ensures
        inherited(InheritView::Clear, parent) == Map::<Seq<u8>, Seq<u8>>::empty(),
{
    lemma_filter_pairs(parent, |e: (Seq<u8>, Seq<u8>)| InheritView::Clear.allows(e.0));
}

/// By default a child inherits the whole environment of its parent.
pub proof fn lemma_default_inherits_all(parent: Seq<(Seq<u8>, Seq<u8>)>)
    ensures
        inherited(InheritView::Remove(Seq::empty()), parent) == pairs_map(parent),
{
    lemma_filter_pairs(
        parent,
        |e: (Seq<u8>, Seq<u8>)| InheritView::Remove(Seq::empty()).allows(e.0),
    );
}

/// Under a whitelist, a child inherits only the variables kept, and every
/// one of them that the parent has.
pub proof fn lemma_keep_only_listed(list: Seq<Seq<u8>>, parent: Seq<(Seq<u8>, Seq<u8>)>, k: Seq<u8>)
    ensures
        inherited(InheritView::Keep(list), parent).dom().contains(k) <==> (list.contains(k)
            && pair_names(parent).contains(k)),
{
    lemma_inherited_names(InheritView::Keep(list), parent, k);
}

/// Under a blacklist, a child inherits every variable of the parent but
/// those removed.
pub proof fn lemma_remove_excludes_listed(
    list: Seq<Seq<u8>>,
    parent: Seq<(Seq<u8>, Seq<u8>)>,
    k: Seq<u8>,
)
    ensures
        inherited(InheritView::Remove(list), parent).dom().contains(k) <==> (!list.contains(k)
            && pair_names(parent).contains(k)),
{
    lemma_inherited_names(InheritView::Remove(list), parent, k);
}

/// A child inherits a variable exactly where the parent has it and the
/// policy lets it through.
pub proof fn lemma_inherited_names(policy: InheritView, parent: Seq<(Seq<u8>, Seq<u8>)>, k: Seq<u8>)
    ensures
        inherited(policy, parent).dom().contains(k) <==> (policy.allows(k) && pair_names(
            parent,
        ).contains(k)),
    decreases parent.len(),
{
    let allow = |e: (Seq<u8>, Seq<u8>)| policy.allows(e.0);
    if parent.len() == 0 {
        reveal(Seq::filter);
    } else {
        let t = parent.drop_last();
        let x = parent.last();
        lemma_inherited_names(policy, t, k);
        assert(parent == t.push(x));
        t.lemma_filter_push(x, allow);
        assert(t.filter(allow).push(x).drop_last() =~= t.filter(allow));
        assert(pair_names(parent) =~= pair_names(t).push(x.0));
        assert(pair_names(parent).contains(k) <==> (pair_names(t).contains(k) || x.0 == k)) by {
            broadcast use vstd::seq_lib::group_seq_properties;

        }
    }
}

} // verus!
