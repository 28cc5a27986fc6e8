use vstd::prelude::*;

verus! {

/// Position of an item within the sequence that a [`HeadBodyTailIter`]
/// walks.
pub enum HeadBodyTail<T> {
    /// The sequence holds this item alone.
    Only(T),
    /// The first of two or more items.
    Head(T),
    /// Neither the first nor the last of three or more items.
    Body(T),
    /// The last of two or more items.
    Tail(T),
}

/// The tag that an item receives given whether it is the first one handed
/// out and whether another item follows it.
pub open spec fn tag_item<T>(item: T, first: bool, more: bool) -> HeadBodyTail<T> {
    if first {
        if more { HeadBodyTail::Head(item) } else { HeadBodyTail::Only(item) }
    } else {
        if more { HeadBodyTail::Body(item) } else { HeadBodyTail::Tail(item) }
    }
}

/// The tag of the item at index `i` of a sequence of length `len`.
pub open spec fn tag_at<T>(item: T, i: int, len: int) -> HeadBodyTail<T> {
    if len == 1 {
        HeadBodyTail::Only(item)
    } else if i == 0 {
        HeadBodyTail::Head(item)
    } else if i == len - 1 {
        HeadBodyTail::Tail(item)
    } else {
        HeadBodyTail::Body(item)
    }
}

/// Hands out the items of a sequence in order, each tagged with its
/// position: [`HeadBodyTail::Only`] for a sequence of one item, otherwise
/// `Head`, then `Body` for each inner item, then `Tail`.
pub struct HeadBodyTailIter<T> {
    next_item: Option<T>,
    first: bool,
    /// The items after `next_item`, last one first.
    inner: Vec<T>,
}

impl<T> HeadBodyTailIter<T> {
    /// The items not yet handed out, in order.
    pub closed spec fn remaining(&self) -> Seq<T> {
        match self.next_item {
            Some(x) => seq![x] + self.inner@.reverse(),
            None => Seq::empty(),
        }
    }

    /// Whether no item has been handed out yet.
    pub closed spec fn is_first(&self) -> bool {
        self.first
    }

    /// Starts walking over the items of `inner`, in order.
    pub fn new(inner: Vec<T>) -> (r: Self)
        ensures
            r.remaining() == inner@,
            r.is_first(),
    {
        let mut src = inner;
        let mut rev: Vec<T> = Vec::new();
        while src.len() > 0
            invariant
                src@ + rev@.reverse() == inner@,
            decreases src.len(),
        {
            let ghost before = src@;
            let x = src.pop().unwrap();
            proof {
                assert(before == src@.push(x));
                assert(rev@.push(x).reverse() =~= seq![x] + rev@.reverse());
                assert(src@ + (seq![x] + rev@.reverse()) =~= src@.push(x) + rev@.reverse());
            }
            rev.push(x);
        }
        assert(src@ =~= Seq::<T>::empty());
        assert(rev@.reverse() =~= inner@);
        let next_item = rev.pop();
        proof {
            if inner@.len() > 0 {
                let ghost r = rev@;
                assert(inner@ =~= seq![next_item.unwrap()] + rev@.reverse()) by {
                    assert forall|i: int| 0 <= i < inner@.len() implies inner@[i] == (seq![
                        next_item.unwrap(),
                    ] + rev@.reverse())[i] by {}
                }
            }
        }
        Self { inner: rev, first: true, next_item }
    }

    /// Hands out the next item with its position tag, or `None` once every
    /// item has been handed out.
    pub fn next(&mut self) -> (r: Option<HeadBodyTail<T>>)
        ensures
            old(self).remaining().len() == 0 ==> r is None && final(self).remaining()
                == old(self).remaining() && final(self).is_first() == old(self).is_first(),
            old(self).remaining().len() > 0 ==> r == Some(
                tag_item(
                    old(self).remaining()[0],
                    old(self).is_first(),
                    old(self).remaining().len() > 1,
                ),
            ) && final(self).remaining() == old(self).remaining().drop_first()
                && !final(self).is_first(),
    {
        let current_item = self.next_item.take();
        match current_item {
            None => None,
            Some(item) => {
                let ghost rest = self.inner@;
                self.next_item = self.inner.pop();
                let more = self.next_item.is_some();
                proof {
                    if rest.len() > 0 {
                        assert(rest == self.inner@.push(self.next_item.unwrap()));
                        assert(rest.reverse() =~= seq![self.next_item.unwrap()]
                            + self.inner@.reverse());
                    }
                    assert((seq![item] + rest.reverse()).drop_first() =~= rest.reverse());
                }
                let result = if more {
                    if self.first { HeadBodyTail::Head(item) } else { HeadBodyTail::Body(item) }
                } else {
                    if self.first { HeadBodyTail::Only(item) } else { HeadBodyTail::Tail(item) }
                };
                self.first = false;
                Some(result)
            },
        }
    }
}

/// A walk over `s` (which [`HeadBodyTailIter::new`] starts with the items
/// `s.skip(0)` still to come and no item handed out) goes as follows. While
/// `i < s.len()` items have been handed out, the items still to come are
/// `s.skip(i)`; the next call hands out `s[i]` tagged by its position
/// (`Only` for the single item of a one-item sequence, `Head` for the first,
/// `Tail` for the last, `Body` for any other) and leaves `s.skip(i + 1)` to
/// come. Once all `s.len()` items are handed out, nothing is left, and
/// every further call returns `None`. So the items come out exactly as `s`,
/// none dropped, repeated or reordered.
pub proof fn lemma_walk_tags<T>(s: Seq<T>, i: int)
    requires
        0 <= i <= s.len(),
    ensures
        s.skip(0) == s,
        i < s.len() ==> s.skip(i).len() > 0 && s.skip(i)[0] == s[i] && tag_item(
            s.skip(i)[0],
            i == 0,
            s.skip(i).len() > 1,
        ) == tag_at(s[i], i, s.len() as int) && s.skip(i).drop_first() == s.skip(i + 1),
        i == s.len() ==> s.skip(i).len() == 0,
{
    assert(s.skip(0) =~= s);
    if i < s.len() {
        assert(s.skip(i).drop_first() =~= s.skip(i + 1));
    }
}

/// Whether `bytes` holds no zero byte, as a C string's content must not.
pub open spec fn nul_free(bytes: Seq<u8>) -> bool {
    forall|i: int| 0 <= i < bytes.len() ==> bytes[i] != 0
}

/// The index of the first zero byte of `bytes`, where there is one.
pub open spec fn first_nul(bytes: Seq<u8>, pos: int) -> bool {
    &&& 0 <= pos < bytes.len()
    &&& bytes[pos] == 0
    &&& nul_free(bytes.take(pos))
}

/// Error returned by [`Argument::new`] when the bytes hold a zero byte.
pub struct NulError {
    position: usize,
    bytes: Vec<u8>,
}

impl NulError {
    /// The position of the first zero byte.
    pub closed spec fn spec_position(&self) -> usize {
        self.position
    }

    /// The bytes that were refused.
    pub closed spec fn spec_bytes(&self) -> Seq<u8> {
        self.bytes@
    }

    /// Returns the position of the first zero byte in the refused bytes.
    pub fn nul_position(&self) -> (r: usize)
        ensures
            r == self.spec_position(),
    {
        self.position
    }

    /// Hands back the refused bytes.
    pub fn into_vec(self) -> (r: Vec<u8>)
        ensures
            r@ == self.spec_bytes(),
    {
        self.bytes
    }
}

/// A child process argument (or executable path, or environment entry):
/// a byte string with no zero byte, ready to be handed to `exec` as a C
/// string.
pub struct Argument {
    bytes: Vec<u8>,
}

impl Argument {
    #[verifier::type_invariant]
    closed spec fn inv(self) -> bool {
        nul_free(self.bytes@)
    }

    /// The bytes of the argument, without a terminating zero byte.
    pub closed spec fn view(&self) -> Seq<u8> {
        self.bytes@
    }

    /// Checks that `value` holds no zero byte and wraps it. Fails, naming
    /// the first zero byte, where it holds one.
    pub fn new(value: Vec<u8>) -> (r: Result<Self, NulError>)
        ensures
            nul_free(value@) <==> r is Ok,
            r matches Ok(a) ==> a.view() == value@,
            r matches Err(e) ==> e.spec_bytes() == value@ && first_nul(value@, e.spec_position() as int),
    {
        let mut i: usize = 0;
        while i < value.len()
            invariant
                i <= value@.len(),
                nul_free(value@.take(i as int)),
            decreases value@.len() - i,
        {
            if value[i] == 0 {
                return Err(NulError { position: i, bytes: value });
            }
            assert(value@.take(i + 1) =~= value@.take(i as int).push(value@[i as int]));
            i = i + 1;
        }
        assert(value@.take(i as int) =~= value@);
        Ok(Argument { bytes: value })
    }

    /// The bytes of the argument, without a terminating zero byte; they
    /// hold no zero byte.
    pub fn as_bytes(&self) -> (r: &Vec<u8>)
        ensures
            r@ == self.view(),
            nul_free(self.view()),
    {
        proof {
            use_type_invariant(self);
        }
        &self.bytes
    }

    /// Hands back the bytes of the argument.
    pub fn into_value(self) -> (r: Vec<u8>)
        ensures
            r@ == self.view(),
            nul_free(r@),
    {
        proof {
            use_type_invariant(&self);
        }
        self.bytes
    }

    /// A copy of the argument.
    pub fn duplicate(&self) -> (r: Self)
        ensures
            r.view() == self.view(),
    {
        proof {
            use_type_invariant(self);
        }
        Argument { bytes: self.bytes.clone() }
    }
}

/// Whether `bytes` holds no zero byte.
pub fn bytes_nul_free(bytes: &Vec<u8>) -> (r: bool)
    ensures
        r == nul_free(bytes@),
{
    let mut i: usize = 0;
    while i < bytes.len()
        invariant
            i <= bytes@.len(),
            forall|j: int| 0 <= j < i ==> bytes@[j] != 0,
        decreases bytes@.len() - i,
    {
        if bytes[i] == 0 {
            return false;
        }
        i = i + 1;
    }
    true
}

/// Whether two byte strings are equal.
pub(crate) fn bytes_eq(a: &Vec<u8>, b: &Vec<u8>) -> (r: bool)
    ensures
        r == (a@ == b@),
{
    if a.len() != b.len() {
        return false;
    }
    let mut i: usize = 0;
    while i < a.len()
        invariant
            a@.len() == b@.len(),
            i <= a@.len(),
            forall|j: int| 0 <= j < i ==> a@[j] == b@[j],
        decreases a@.len() - i,
    {
        if a[i] != b[i] {
            return false;
        }
        i = i + 1;
    }
    assert(a@ =~= b@);
    true
}

/// Whether `list` holds the byte string `k`.
pub(crate) fn contains_bytes(list: &Vec<Vec<u8>>, k: &Vec<u8>) -> (r: bool)
    ensures
        r == list.deep_view().contains(k@),
{
    let mut i: usize = 0;
    while i < list.len()
        invariant
            i <= list@.len(),
            forall|j: int| 0 <= j < i ==> list.deep_view()[j] != k@,
        decreases list@.len() - i,
    {
        assert(list.deep_view()[i as int] == list@[i as int]@);
        if bytes_eq(&list[i], k) {
            return true;
        }
        i = i + 1;
    }
    proof {
        if list.deep_view().contains(k@) {
            let j = choose|j: int| 0 <= j < list.deep_view().len() && list.deep_view()[j] == k@;
            assert(false);
        }
    }
    false
}

} // verus!
