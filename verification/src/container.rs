//! The non-empty container itself: a mandatory `first` element plus a `rest`
//! vector, together denoting the logical sequence `[first] + rest`.

use vstd::prelude::*;
use vstd::string::StringExecFns;

verus! {

/// A collection holding either a single item or several items of type `T`,
/// never zero. `first` always holds the head; `rest` holds the remaining
/// items in order. The only fallible way in is [`OneOrMany::many`], which
/// rejects an empty vector, so every value of this type denotes a sequence
/// of length at least one.
#[derive(PartialEq, Eq, Debug, Clone)]
pub struct OneOrMany<T> {
    /// First item in the list.
    first: T,
    /// Rest of the items in the list.
    rest: Vec<T>,
}

/// Error returned when a container is built or merged from zero elements.
#[derive(Debug, PartialEq, Eq, Clone, Copy)]
pub struct EmptyListError;

impl EmptyListError {
    /// The fixed message carried by this error.
    pub fn message(&self) -> (r: String)
        ensures
            r@ == "Cannot create OneOrMany with an empty vector."@,
    {
        "Cannot create OneOrMany with an empty vector.".to_string()
    }
}

impl<T> View for OneOrMany<T> {
    type V = Seq<T>;

    /// The logical sequence a container denotes: its head followed by its tail.
    closed spec fn view(&self) -> Seq<T> {
        seq![self.first].add(self.rest@)
    }
}

/// Every container denotes a sequence of length at least one: the head is
/// always present, so the empty state is unrepresentable.
pub broadcast proof fn lemma_one_or_many_nonempty<T>(c: &OneOrMany<T>)
    ensures
        #[trigger] c@.len() >= 1,
{
}

/// The concatenation of the logical sequences of a sequence of containers,
/// in order.
pub open spec fn flat_views<T>(s: Seq<OneOrMany<T>>) -> Seq<T>
    decreases s.len(),
{
    if s.len() == 0 {
        Seq::empty()
    } else {
        s[0]@ + flat_views(s.drop_first())
    }
}

/// Flattening at least one container yields at least one element, since each
/// container is non-empty.
pub proof fn lemma_flat_views_len<T>(s: Seq<OneOrMany<T>>)
    ensures
        flat_views(s).len() >= s.len(),
    decreases s.len(),
{
    if s.len() > 0 {
        lemma_one_or_many_nonempty(&s[0]);
        lemma_flat_views_len(s.drop_first());
    }
}

impl<T> OneOrMany<T> {
    /// Create a container with a single item of any type.
    pub fn one(item: T) -> (r: Self)
        ensures
            r@ == seq![item],
    {
        let r = OneOrMany { first: item, rest: Vec::new() };
        proof {
            assert(r@ =~= seq![r.first]);
        }
        r
    }

    /// Create a container from a vector of items, taking ownership of it.
    /// Fails with [`EmptyListError`] exactly when the vector is empty;
    /// otherwise the head is the vector's first element and the tail holds
    /// the remaining elements in their original order.
    pub fn many(items: Vec<T>) -> (r: Result<Self, EmptyListError>)
        ensures
            r is Err <==> items@.len() == 0,
            r matches Ok(c) ==> c@ == items@,
    {
        let ghost orig = items@;
        let mut items = items;
        if items.is_empty() {
            Err(EmptyListError)
        } else {
            let first = items.remove(0);
            let r = OneOrMany { first, rest: items };
            proof {
                assert(orig.remove(0) =~= orig.drop_first());
                assert(r@ =~= orig);
            }
            Ok(r)
        }
    }

    /// Length of all items in the container; always at least one.
    pub fn len(&self) -> (r: usize)
        requires
            self@.len() <= usize::MAX,
        ensures
            r == self@.len(),
    {
        1 + self.rest.len()
    }

    /// Whether the container is empty. This is always `false`, because an
    /// empty container cannot be created; the method exists because `len`
    /// does.
    pub fn is_empty(&self) -> (r: bool)
        ensures
            r == false,
    {
        false
    }

    /// Append an item at the end of the tail.
    pub fn push(&mut self, item: T)
        ensures
            final(self)@ == old(self)@.push(item),
    {
        self.rest.push(item);
        proof {
            assert(self@ =~= old(self)@.push(item));
        }
    }

    /// Insert an item at an index. Index zero makes the new item the head
    /// and demotes the previous head to the front of the tail; any other
    /// index inserts into the tail. An index beyond the current length is
    /// rejected, as the underlying vector's insert would be.
    pub fn insert(&mut self, index: usize, item: T)
        requires
            index <= old(self)@.len(),
        ensures
            final(self)@ == old(self)@.insert(index as int, item),
    {
        let ghost item0 = item;
        let mut tmp = item;
        if index == 0 {
            core::mem::swap(&mut self.first, &mut tmp);
            self.rest.insert(0, tmp);
        } else {
            self.rest.insert(index - 1, tmp);
        }
        proof {
            assert(self@ =~= old(self)@.insert(index as int, item0));
        }
    }

    /// Merge a list of containers into a single container holding every
    /// element of every input container, in input order. Fails with
    /// [`EmptyListError`] exactly when the outer list itself is empty: each
    /// individual container is already non-empty, so no other input can fail.
    pub fn merge(one_or_many_items: Vec<OneOrMany<T>>) -> (r: Result<Self, EmptyListError>)
        ensures
            r is Err <==> one_or_many_items@.len() == 0,
            r matches Ok(c) ==> c@ == flat_views(one_or_many_items@),
    {
        let ghost all = one_or_many_items@;
        let mut remaining = one_or_many_items;
        let mut items: Vec<T> = Vec::new();
        proof {
            assert(items@ + flat_views(remaining@) =~= flat_views(all));
        }
        while remaining.len() > 0
            invariant
                items@ + flat_views(remaining@) == flat_views(all),
                all.len() > 0 ==> items@.len() + remaining@.len() > 0,
            decreases remaining@.len(),
        {
            let ghost before = remaining@;
            let mut c = remaining.remove(0);
            items.push(c.first);
            items.append(&mut c.rest);
            proof {
                assert(before.remove(0) =~= before.drop_first());
                assert(items@ + flat_views(remaining@) =~= flat_views(all));
            }
        }
        proof {
            if all.len() > 0 {
                assert(items@ =~= items@ + flat_views(remaining@));
            }
        }
        let r = Self::many(items);
        proof {
            if all.len() == 0 {
                assert(flat_views(all).len() == 0);
            } else {
                lemma_flat_views_len(all);
            }
        }
        r
    }

    /// Apply an operation to every element in order, head first, producing a
    /// new container of exactly the same length and relative order.
    pub fn map<U, F: Fn(T) -> U>(self, op: F) -> (r: OneOrMany<U>)
        requires
            forall|i: int| 0 <= i < self@.len() ==> call_requires(op, (self@[i],)),
        ensures
            r@.len() == self@.len(),
            forall|i: int| 0 <= i < self@.len() ==> call_ensures(op, (self@[i],), #[trigger] r@[i]),
    {
        let ghost orig = self@;
        let OneOrMany { first, rest } = self;
        let ghost orig_rest = rest@;
        proof {
            assert(orig =~= seq![first] + orig_rest);
            assert(orig[0] == first);
        }
        let new_first = op(first);
        let mut new_rest: Vec<U> = Vec::new();
        let mut rem = rest;
        while rem.len() > 0
            invariant
                orig =~= seq![first] + orig_rest,
                forall|i: int| 0 <= i < orig.len() ==> call_requires(op, (orig[i],)),
                new_rest@.len() + rem@.len() == orig_rest.len(),
                rem@ == orig_rest.skip(new_rest@.len() as int),
                forall|i: int|
                    0 <= i < new_rest@.len() ==> call_ensures(
                        op,
                        (orig_rest[i],),
                        #[trigger] new_rest@[i],
                    ),
            decreases rem@.len(),
        {
            let ghost k = new_rest@.len() as int;
            let x = rem.remove(0);
            proof {
                assert(x == orig_rest[k]);
                assert(orig_rest[k] == orig[k + 1]);
            }
            let y = op(x);
            new_rest.push(y);
            proof {
                assert(rem@ =~= orig_rest.skip(new_rest@.len() as int));
            }
        }
        let r = OneOrMany { first: new_first, rest: new_rest };
        proof {
            assert(r@.len() == orig.len());
            assert forall|i: int| 0 <= i < orig.len() implies call_ensures(
                op,
                (orig[i],),
                #[trigger] r@[i],
            ) by {
                if i == 0 {
                    assert(orig[0] == first);
                    assert(r@[0] == new_first);
                } else {
                    assert(orig[i] == orig_rest[i - 1]);
                    assert(r@[i] == new_rest@[i - 1]);
                }
            }
        }
        r
    }

    /// The operation `op` can answer `Ok` on the element `x`.
    pub open spec fn can_succeed_on<U, E, F: Fn(T) -> Result<U, E>>(op: F, x: T) -> bool {
        exists|y: U| call_ensures(op, (x,), Ok::<U, E>(y))
    }

    /// The operation `op` can answer `Err(e)` on some element of `s` while
    /// being able to answer `Ok` on every earlier element: what a
    /// short-circuiting traversal propagates is its first failure.
    pub open spec fn first_failure_can_be<U, E, F: Fn(T) -> Result<U, E>>(
        op: F,
        s: Seq<T>,
        e: E,
    ) -> bool {
        exists|i: int|
            {
                &&& 0 <= i < s.len()
                &&& #[trigger] call_ensures(op, (s[i],), Err::<U, E>(e))
                &&& forall|j: int| 0 <= j < i ==> #[trigger] Self::can_succeed_on(op, s[j])
            }
    }

    /// Apply a fallible operation to every element in order, head first,
    /// short-circuiting on the first failure and discarding partial results.
    /// On success the new container has exactly the same length; any error
    /// returned is the operation's own failure on an element before which it
    /// could have succeeded on every earlier element.
    pub fn try_map<U, E, F: Fn(T) -> Result<U, E>>(self, op: F) -> (r: Result<OneOrMany<U>, E>)
        requires
            forall|i: int| 0 <= i < self@.len() ==> call_requires(op, (self@[i],)),
        ensures
            r matches Ok(c) ==> {
                &&& c@.len() == self@.len()
                &&& forall|i: int|
                    0 <= i < self@.len() ==> call_ensures(op, (self@[i],), Ok(#[trigger] c@[i]))
            },
            r matches Err(e) ==> Self::first_failure_can_be(op, self@, e),
    {
        let ghost orig = self@;
        let OneOrMany { first, rest } = self;
        let ghost orig_rest = rest@;
        proof {
            assert(orig =~= seq![first] + orig_rest);
            assert(orig[0] == first);
        }
        let new_first = match op(first) {
            Ok(v) => v,
            Err(e) => {
                proof {
                    assert(orig[0] == first);
                    assert(Self::first_failure_can_be(op, orig, e));
                }
                return Err(e);
            },
        };
        let mut new_rest: Vec<U> = Vec::new();
        let mut rem = rest;
        let mut failed: Option<E> = None;
        while rem.len() > 0 && failed.is_none()
            invariant
                orig =~= seq![first] + orig_rest,
                forall|i: int| 0 <= i < orig.len() ==> call_requires(op, (orig[i],)),
                failed matches Some(e) ==> Self::first_failure_can_be(op, orig, e),
                failed is None ==> {
                    &&& new_rest@.len() + rem@.len() == orig_rest.len()
                    &&& rem@ == orig_rest.skip(new_rest@.len() as int)
                    &&& call_ensures(op, (orig[0],), Ok::<U, E>(new_first))
                    &&& forall|i: int|
                        0 <= i < new_rest@.len() ==> call_ensures(
                            op,
                            (orig_rest[i],),
                            Ok(#[trigger] new_rest@[i]),
                        )
                },
            decreases rem@.len(),
        {
            let ghost k = new_rest@.len() as int;
            let x = rem.remove(0);
            proof {
                assert(x == orig_rest[k]);
                assert(orig_rest[k] == orig[k + 1]);
            }
            match op(x) {
                Ok(y) => {
                    new_rest.push(y);
                },
                Err(e) => {
                    proof {
                        assert(0 <= k + 1 < orig.len());
                        assert(call_ensures(op, (orig[k + 1],), Err::<U, E>(e)));
                        assert forall|j: int| 0 <= j < k + 1 implies Self::can_succeed_on(
                            op,
                            orig[j],
                        ) by {
                            if j == 0 {
                                assert(call_ensures(op, (orig[0],), Ok::<U, E>(new_first)));
                            } else {
                                assert(orig[j] == orig_rest[j - 1]);
                                assert(call_ensures(op, (orig[j],), Ok::<U, E>(new_rest@[j - 1])));
                            }
                        }
                        assert(Self::first_failure_can_be(op, orig, e));
                    }
                    failed = Some(e);
                },
            }
            proof {
                if failed is None {
                    assert(rem@ =~= orig_rest.skip(new_rest@.len() as int));
                }
            }
        }
        if let Some(e) = failed {
            return Err(e);
        }
        let r = OneOrMany { first: new_first, rest: new_rest };
        proof {
            assert(r@.len() == orig.len());
            assert forall|i: int| 0 <= i < orig.len() implies call_ensures(
                op,
                (orig[i],),
                Ok(#[trigger] r@[i]),
            ) by {
                if i == 0 {
                    assert(orig[0] == first);
                    assert(r@[0] == new_first);
                } else {
                    assert(orig[i] == orig_rest[i - 1]);
                    assert(r@[i] == new_rest@[i - 1]);
                }
            }
        }
        Ok(r)
    }
}

impl<T: Clone> OneOrMany<T> {
    /// Get a clone of the first item in the list.
    pub fn first(&self) -> (r: T)
        ensures
            cloned::<T>(self@[0], r),
    {
        self.first.clone()
    }

    /// Get clones of the rest of the items in the list (excluding the first
    /// one).
    pub fn rest(&self) -> (r: Vec<T>)
        ensures
            r@.len() == self@.len() - 1,
            forall|i: int| 0 <= i < r@.len() ==> cloned::<T>(self@[i + 1], #[trigger] r@[i]),
    {
        self.rest.clone()
    }
}

/// The characters of the strings of `s` joined into one sequence, with a
/// single space between consecutive strings.
pub open spec fn joined_with_spaces(s: Seq<String>) -> Seq<char>
    decreases s.len(),
{
    if s.len() == 0 {
        Seq::empty()
    } else if s.len() == 1 {
        s[0]@
    } else {
        joined_with_spaces(s.drop_last()) + seq![' '] + s.last()@
    }
}

impl OneOrMany<String> {
    /// All elements joined into one string, head first, with a single space
    /// between consecutive elements.
    pub fn join_with_spaces(&self) -> (r: String)
        ensures
            r@ == joined_with_spaces(self@),
    {
        let mut out = self.first.clone();
        proof {
            assert(self@.take(1) =~= seq![self.first]);
            assert(out@ == joined_with_spaces(self@.take(1)));
        }
        let mut j: usize = 0;
        while j < self.rest.len()
            invariant
                j <= self.rest@.len(),
                out@ == joined_with_spaces(self@.take(j + 1)),
            decreases self.rest@.len() - j,
        {
            out.append(" ");
            out.append(self.rest[j].as_str());
            j = j + 1;
            proof {
                reveal_strlit(" ");
                let t = self@.take(j as int + 1);
                assert(t.drop_last() =~= self@.take(j as int));
                assert(t.last() == self.rest@[j - 1]);
                assert(out@ == joined_with_spaces(t));
            }
        }
        proof {
            assert(self@.take(self@.len() as int) =~= self@);
        }
        out
    }
}

/// Iterator over references to the elements, head first, then the tail in
/// order. Produced by [`OneOrMany::iter`]; restartable by calling `iter`
/// again.
pub struct Iter<'a, T> {
    /// The container being walked.
    elems: &'a OneOrMany<T>,
    /// Whether the head has been produced already.
    first_done: bool,
    /// How many tail elements have been produced so far.
    pos: usize,
}

impl<'a, T> View for Iter<'a, T> {
    type V = Seq<T>;

    /// The elements not yet produced, in order.
    closed spec fn view(&self) -> Seq<T> {
        if !self.first_done {
            self.elems@
        } else {
            self.elems@.skip(self.pos + 1)
        }
    }
}

impl<'a, T> Iter<'a, T> {
    /// The position never runs past the end of the container, and the head
    /// is produced before any tail element.
    pub closed spec fn wf(&self) -> bool {
        &&& self.first_done ==> self.pos + 1 <= self.elems@.len()
        &&& !self.first_done ==> self.pos == 0
    }

    /// Produce a reference to the next element, or `None` once every element
    /// has been produced.
    pub fn next(&mut self) -> (r: Option<&'a T>)
        requires
            old(self).wf(),
        ensures
            final(self).wf(),
            old(self)@.len() == 0 ==> r is None && final(self)@ == old(self)@,
            old(self)@.len() > 0 ==> {
                &&& r matches Some(x)
                &&& *x == old(self)@[0]
                &&& final(self)@ == old(self)@.drop_first()
            },
    {
        if !self.first_done {
            self.first_done = true;
            proof {
                assert(self@ =~= old(self)@.drop_first());
            }
            Some(&self.elems.first)
        } else if self.pos < self.elems.rest.len() {
            let x = &self.elems.rest[self.pos];
            self.pos = self.pos + 1;
            proof {
                assert(*x == old(self)@[0]);
                assert(self@ =~= old(self)@.drop_first());
            }
            Some(x)
        } else {
            None
        }
    }
}

impl<T> OneOrMany<T> {
    /// A reference to the element at an index of the logical sequence.
    pub fn get(&self, index: usize) -> (r: &T)
        requires
            index < self@.len(),
        ensures
            *r == self@[index as int],
    {
        if index == 0 {
            &self.first
        } else {
            &self.rest[index - 1]
        }
    }

    /// Iterate over references to the elements, head first.
    pub fn iter(&self) -> (it: Iter<'_, T>)
        ensures
            it.wf(),
            it@ == self@,
    {
        let it = Iter { elems: self, first_done: false, pos: 0 };
        proof {
            assert(it@ =~= self@);
        }
        it
    }
}

/// Iterator that consumes the container and yields its elements by value,
/// head first, then the tail in order. Produced by [`OneOrMany::into_iter`].
pub struct IntoIter<T> {
    /// The elements not yet yielded, in order.
    items: Vec<T>,
}

impl<T> View for IntoIter<T> {
    type V = Seq<T>;

    /// The elements not yet yielded, in order.
    closed spec fn view(&self) -> Seq<T> {
        self.items@
    }
}

impl<T> IntoIter<T> {
    /// Whether every element has been yielded already.
    pub fn is_done(&self) -> (r: bool)
        ensures
            r <==> self@.len() == 0,
    {
        self.items.is_empty()
    }

    /// Move the next element out, or `None` once every element has been
    /// yielded.
    pub fn next(&mut self) -> (r: Option<T>)
        ensures
            old(self)@.len() == 0 ==> r is None && final(self)@ == old(self)@,
            old(self)@.len() > 0 ==> {
                &&& r == Some(old(self)@[0])
                &&& final(self)@ == old(self)@.drop_first()
            },
    {
        if self.items.is_empty() {
            None
        } else {
            let x = self.items.remove(0);
            proof {
                assert(self.items@ =~= old(self)@.drop_first());
            }
            Some(x)
        }
    }
}

impl<T> OneOrMany<T> {
    /// Consume the container into an iterator over its elements by value.
    pub fn into_iter(self) -> (it: IntoIter<T>)
        ensures
            it@ == self@,
    {
        let ghost orig = self@;
        let OneOrMany { first, rest } = self;
        let mut items = rest;
        items.insert(0, first);
        proof {
            assert(items@ =~= orig);
        }
        IntoIter { items }
    }
}

/// Iterator over mutable references to the elements, head first, then the
/// tail in order. Produced by [`OneOrMany::iter_mut`]; writes through the
/// references it yields land in the container once the iteration is over.
pub struct IterMut<'a, T> {
    /// The head, until it has been yielded.
    pub first: Option<&'a mut T>,
    /// The part of the tail not yet yielded; `None` once exhausted.
    pub rest: Option<&'a mut [T]>,
}

impl<T> OneOrMany<T> {
    /// Iterate over mutable references to the elements, head first. Writes
    /// through the yielded references land in the container once the
    /// iteration is over: the container's final sequence is the head
    /// reference's final value followed by the tail slice's final values.
    pub fn iter_mut<'a>(&'a mut self) -> (it: IterMut<'a, T>)
        ensures
            it.first matches Some(f) && it.rest matches Some(s) && {
                &&& *f == old(self)@[0]
                &&& s@ == old(self)@.drop_first()
                &&& final(self)@ == seq![*final(f)] + final(s)@
            },
    {
        let f = &mut self.first;
        let r = self.rest.as_mut_slice();
        proof {
            assert(old(self)@.drop_first() =~= old(self).rest@);
            assert(seq![*final(f)] + final(r)@ =~= seq![*final(f)].add(final(r)@));
        }
        IterMut { first: Some(f), rest: Some(r) }
    }
}

impl<T> OneOrMany<T> {
    /// Replace the element at an index, walking the mutable-iteration
    /// protocol to it: mutation through the reference the iteration yields
    /// at any position is visible in the container afterwards, so a later
    /// by-reference iteration reads the new value there.
    pub fn set(&mut self, index: usize, value: T)
        requires
            index < old(self)@.len(),
        ensures
            final(self)@ == old(self)@.update(index as int, value),
    {
        let mut it = self.iter_mut();
        let r0 = it.next();
        if index == 0 {
            match r0 {
                Some(x) => {
                    *x = value;
                },
                None => {
                    proof {
                        assert(false);
                    }
                },
            }
            proof {
                assert(after_borrow(*self)@ =~= old(self)@.update(index as int, value));
            }
        } else {
            let mut k: usize = 1;
            while k < index
                invariant
                    1 <= k <= index,
                    index < old(self)@.len(),
                    it.first is None,
                    it.rest matches Some(s) && {
                        &&& s@ == old(self)@.skip(k as int)
                        &&& after_borrow(*self)@ == old(self)@.take(k as int) + final(s)@
                    },
                decreases index - k,
            {
                let rk = it.next();
                k = k + 1;
                proof {
                    assert(old(self)@.skip(k - 1 as int).skip(1) =~= old(self)@.skip(k as int));
                    assert(old(self)@.take(k - 1 as int) + seq![old(self)@[k - 1]] =~= old(
                        self,
                    )@.take(k as int));
                }
            }
            match it.next() {
                Some(x) => {
                    *x = value;
                },
                None => {
                    proof {
                        assert(false);
                    }
                },
            }
            proof {
                assert(old(self)@.skip(index as int).skip(1) =~= old(self)@.skip(
                    index as int + 1,
                ));
                assert(old(self)@.take(index as int) + seq![value] + old(self)@.skip(
                    index as int + 1,
                ) =~= old(self)@.update(index as int, value));
                assert(after_borrow(*self)@ =~= old(self)@.update(index as int, value));
            }
        }
    }
}

impl<'a, T> IterMut<'a, T> {
    /// Produce a mutable reference to the next element, or `None` once every
    /// element has been produced. The slice held before the call is split
    /// into the yielded reference and the slice held after it, so its final
    /// values are the yielded reference's final value followed by the
    /// remaining slice's final values.
    pub fn next(&mut self) -> (r: Option<&'a mut T>)
        ensures
            old(self).first matches Some(f) ==> {
                &&& r matches Some(x)
                &&& *x == *f
                &&& *final(x) == *final(f)
                &&& final(self).first is None
                &&& final(self).rest == old(self).rest
            },
            old(self).first is None ==> (old(self).rest matches Some(s) ==> (s@.len() > 0
                ==> {
                    &&& final(self).first is None
                    &&& r matches Some(x)
                    &&& *x == s@[0]
                    &&& final(self).rest matches Some(t)
                    &&& t@ == s@.drop_first()
                    &&& final(s)@ == seq![*final(x)] + final(t)@
                })),
            old(self).first is None ==> (old(self).rest matches Some(s) ==> (s@.len() == 0
                ==> {
                    &&& r is None
                    &&& final(self).first is None
                    &&& final(self).rest is None
                    &&& final(s)@ == s@
                })),
            old(self).first is None && old(self).rest is None ==> {
                &&& r is None
                &&& final(self).first is None
                &&& final(self).rest is None
            },
    {
        let f = self.first.take();
        match f {
            Some(x) => Some(x),
            None => {
                let sl = self.rest.take();
                match sl {
                    None => None,
                    Some(s) => {
                        if s.len() == 0 {
                            None
                        } else {
                            let (head, tail) = <[T]>::split_at_mut(s, 1);
                            self.rest = Some(tail);
                            match <[T]>::first_mut(head) {
                                Some(x) => Some(x),
                                None => {
                                    proof {
                                        assert(false);
                                    }
                                    None
                                },
                            }
                        }
                    },
                }
            },
        }
    }
}

} // verus!
