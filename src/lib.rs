//! A fixed-capacity sequential container.
//!
//! Storage for `capacity` elements is reserved once at construction; elements
//! are appended until that capacity is exhausted and never removed. The
//! container is modelled by the sequence of stored elements (its view) and the
//! capacity fixed at construction.
use vstd::prelude::*;

verus! {

/// The contents after appending `v` to `s` in a container of capacity `cap`:
/// `None` when the container is already full.
pub open spec fn push_result<T>(s: Seq<T>, cap: nat, v: T) -> Option<Seq<T>> {
    if s.len() < cap {
        Some(s.push(v))
    } else {
        None
    }
}

/// The contents after appending each of `vals` in order, starting from `s` in
/// a container of capacity `cap`. An append into a full container is rejected
/// and leaves the contents as they were.
pub open spec fn append_each<T>(s: Seq<T>, cap: nat, vals: Seq<T>) -> Seq<T>
    decreases vals.len(),
{
    if vals.len() == 0 {
        s
    } else {
        let next = match push_result(s, cap, vals[0]) {
            Some(t) => t,
            None => s,
        };
        append_each(next, cap, vals.drop_first())
    }
}

/// Whatever sequence of appends is made, the length never exceeds the
/// capacity: after each step of the sequence it stays within `cap`.
pub proof fn lemma_length_within_capacity<T>(s: Seq<T>, cap: nat, vals: Seq<T>)
    requires
        s.len() <= cap,
    ensures
        forall|i: int|
            0 <= i <= vals.len() ==> #[trigger] append_each(s, cap, vals.take(i)).len() <= cap,
{
    assert forall|i: int| 0 <= i <= vals.len() implies #[trigger] append_each(
        s,
        cap,
        vals.take(i),
    ).len() <= cap by {
        lemma_append_each_bounded(s, cap, vals.take(i));
    }
}

proof fn lemma_append_each_bounded<T>(s: Seq<T>, cap: nat, vals: Seq<T>)
    requires
        s.len() <= cap,
    ensures
        append_each(s, cap, vals).len() <= cap,
    decreases vals.len(),
{
    if vals.len() > 0 {
        let next = match push_result(s, cap, vals[0]) {
            Some(t) => t,
            None => s,
        };
        lemma_append_each_bounded(next, cap, vals.drop_first());
    }
}

/// Appending `n` values into an empty container of capacity `n` succeeds at
/// every one of the `n` steps and leaves exactly those values, in order; one
/// more append is then rejected, and the length stays `n`.
pub proof fn lemma_full_rejection<T>(vals: Seq<T>, extra: T)
    ensures
        forall|i: int|
            0 <= i < vals.len() ==> #[trigger] push_result(vals.take(i), vals.len(), vals[i])
                == Some(vals.take(i + 1)),
        append_each(Seq::<T>::empty(), vals.len(), vals) == vals,
        push_result(vals, vals.len(), extra) is None,
{
    assert forall|i: int| 0 <= i < vals.len() implies #[trigger] push_result(
        vals.take(i),
        vals.len(),
        vals[i],
    ) == Some(vals.take(i + 1)) by {
        assert(vals.take(i).push(vals[i]) =~= vals.take(i + 1));
    }
    lemma_append_each_fills(Seq::<T>::empty(), vals.len(), vals);
    assert(Seq::<T>::empty() + vals =~= vals);
}

proof fn lemma_append_each_fills<T>(s: Seq<T>, cap: nat, vals: Seq<T>)
    requires
        s.len() + vals.len() <= cap,
    ensures
        append_each(s, cap, vals) == s + vals,
    decreases vals.len(),
{
    if vals.len() > 0 {
        lemma_append_each_fills(s.push(vals[0]), cap, vals.drop_first());
        assert(s.push(vals[0]) + vals.drop_first() =~= s + vals);
    }
}

/// A successful append stores `v` at the first free position and leaves every
/// earlier element as it was.
pub proof fn lemma_read_back<T>(s: Seq<T>, cap: nat, v: T)
    requires
        push_result(s, cap, v) is Some,
    ensures
        push_result(s, cap, v)->Some_0.len() == s.len() + 1,
        push_result(s, cap, v)->Some_0[s.len() as int] == v,
        forall|j: int| 0 <= j < s.len() ==> push_result(s, cap, v)->Some_0[j] == #[trigger] s[j],
{
}

/// Writing `v` at a stored position `i` makes a later read at `i` return `v`,
/// leaves the other elements as they were, and keeps the length.
pub proof fn lemma_mutation_visible<T>(s: Seq<T>, i: int, v: T)
    requires
        0 <= i < s.len(),
    ensures
        s.update(i, v)[i] == v,
        s.update(i, v).len() == s.len(),
        forall|j: int| 0 <= j < s.len() && j != i ==> s.update(i, v)[j] == #[trigger] s[j],
{
}

/// A container that holds at most `size` elements, reserved up front.
pub struct StaticArray<T> {
    data: Vec<T>,
    size: usize,
}

impl<T> View for StaticArray<T> {
    type V = Seq<T>;

    /// The elements currently stored, in the order they were appended.
    closed spec fn view(&self) -> Seq<T> {
        self.data@
    }
}

impl<T> StaticArray<T> {
    /// The number of slots reserved at construction.
    pub closed spec fn capacity(&self) -> nat {
        self.size as nat
    }

    /// The stored elements never exceed the reserved capacity.
    pub open spec fn wf(&self) -> bool {
        self@.len() <= self.capacity()
    }

    /// Returns the number of elements currently stored.
    pub fn current_len(&self) -> (r: usize)
        ensures
            r == self@.len(),
    {
        self.data.len()
    }

    /// Returns the number of slots reserved at construction.
    pub fn size(&self) -> (r: usize)
        ensures
            r == self.capacity(),
    {
        self.size
    }

    /// Creates an empty container with room for exactly `size` elements.
    ///
    /// A capacity of zero gives a valid container that is always full.
    pub fn new(size: usize) -> (r: StaticArray<T>)
        ensures
            r.wf(),
            r@ == Seq::<T>::empty(),
            r.capacity() == size,
    {
        StaticArray { data: Vec::with_capacity(size), size }
    }

    /// Appends `element` at the end.
    ///
    /// Fails with "full array", leaving the container unchanged, exactly when
    /// the container already holds `capacity` elements.
    pub fn push(&mut self, element: T) -> (r: Result<(), &str>)
        requires
            old(self).wf(),
        ensures
            final(self).wf(),
            final(self).capacity() == old(self).capacity(),
            r is Ok <==> push_result(old(self)@, old(self).capacity(), element) is Some,
            r is Ok ==> final(self)@ == push_result(old(self)@, old(self).capacity(), element)->Some_0,
            r is Err ==> final(self)@ == old(self)@,
            r is Err ==> r->Err_0@ == "full array"@,
    {
        if self.data.len() == self.size {
            proof {
                reveal_strlit("full array");
            }
            return Err("full array");
        }
        self.data.push(element);
        Ok(())
    }

    /// Returns the element at `idx`, which must be below the current length.
    pub fn get(&self, idx: isize) -> (r: &T)
        requires
            0 <= idx < self@.len(),
        ensures
            *r == self@[idx as int],
    {
        &self.data[idx as usize]
    }

    /// Returns mutable access to the element at `idx`, which must be below the
    /// current length. Writing through it replaces that element only.
    pub fn get_mut(&mut self, idx: isize) -> (r: &mut T)
        requires
            old(self).wf(),
            0 <= idx < old(self)@.len(),
        ensures
            *r == old(self)@[idx as int],
            final(self)@ == old(self)@.update(idx as int, *final(r)),
            final(self).capacity() == old(self).capacity(),
            final(self).wf(),
    {
        &mut self.data[idx as usize]
    }
}

} // verus!
