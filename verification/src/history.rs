//! A sliding window over a stream of samples.

use std::collections::vec_deque::Iter;
use std::collections::VecDeque;
use vstd::prelude::*;
use vstd::std_specs::iter::IteratorSpec;

verus! {

/// The number of samples that every plotted history keeps.
pub const HISTORY_LENGTH: usize = 20;

/// The newest `n` elements of `s`, oldest first; all of `s` when it is shorter.
pub open spec fn newest<T>(s: Seq<T>, n: nat) -> Seq<T> {
    if s.len() <= n {
        s
    } else {
        s.subrange(s.len() - n, s.len() as int)
    }
}

/// What a window of capacity `n` holds after the values of `vs` were pushed,
/// one by one, into a window that held `s`.
pub open spec fn pushed_all<T>(s: Seq<T>, n: nat, vs: Seq<T>) -> Seq<T>
    decreases vs.len(),
{
    if vs.len() == 0 {
        s
    } else {
        pushed_all(newest(s.push(vs[0]), n), n, vs.drop_first())
    }
}

/// A window of fixed capacity: it keeps the newest samples and drops the
/// oldest one first.
pub struct Data<T> {
    data_points: usize,
    data_records: VecDeque<T>,
}

impl<T> View for Data<T> {
    type V = Seq<T>;

    /// The samples held, oldest first.
    closed spec fn view(&self) -> Seq<T> {
        self.data_records@
    }
}

impl<T> Data<T> {
    #[verifier::type_invariant]
    spec fn within_capacity(&self) -> bool {
        self.data_records@.len() <= self.data_points
    }

    /// The number of samples the window can hold.
    pub closed spec fn capacity(&self) -> nat {
        self.data_points as nat
    }

    /// An empty window that will hold up to `data_points` samples.
    pub fn new(data_points: usize) -> (data: Self)
        ensures
            data@ == Seq::<T>::empty(),
            data.capacity() == data_points,
    {
        Data { data_points, data_records: VecDeque::with_capacity(data_points) }
    }

    /// Appends a sample; a full window gives up its oldest sample for it.
    pub fn push(&mut self, data_record: T)
        ensures
            final(self).capacity() == old(self).capacity(),
            final(self)@ == newest(old(self)@.push(data_record), old(self).capacity()),
            final(self)@.len() <= final(self).capacity(),
    {
        proof {
            use_type_invariant(&*self);
        }
        let mut records: VecDeque<T> = VecDeque::new();
        std::mem::swap(&mut records, &mut self.data_records);
        records.push_back(data_record);
        if records.len() > self.data_points {
            records.pop_front();
        }
        self.data_records = records;
    }

    /// The samples held, oldest first.
    pub fn data_iter(&self) -> (iter: Iter<'_, T>)
        ensures
            iter.remaining() == self@.as_ref(),
            IteratorSpec::decrease(&iter) is Some,
            IteratorSpec::initial_value_relation(&iter, &iter),
    {
        self.data_records.iter()
    }

    /// The number of samples held.
    pub fn len(&self) -> (n: usize)
        ensures
            n == self@.len(),
            n <= self.capacity(),
    {
        proof {
            use_type_invariant(self);
        }
        self.data_records.len()
    }
}

/// Pushing a run of values into an empty window leaves exactly the newest
/// ones, as many as the capacity allows, in the order they were pushed.
pub proof fn lemma_pushed_all_keeps_newest<T>(n: nat, vs: Seq<T>)
    ensures
        pushed_all(Seq::<T>::empty(), n, vs) == newest(vs, n),
        vs.len() > n ==> pushed_all(Seq::<T>::empty(), n, vs) == vs.subrange(
            vs.len() - n,
            vs.len() as int,
        ),
{
    lemma_pushed_all_from(Seq::<T>::empty(), n, vs);
    assert(Seq::<T>::empty() + vs =~= vs);
}

/// Pushing `vs` into a window that holds `s` within its capacity leaves the
/// newest elements of `s` followed by `vs`.
pub proof fn lemma_pushed_all_from<T>(s: Seq<T>, n: nat, vs: Seq<T>)
    requires
        s.len() <= n,
    ensures
        pushed_all(s, n, vs) == newest(s + vs, n),
    decreases vs.len(),
{
    if vs.len() == 0 {
        assert(s + vs =~= s);
    } else {
        let next = newest(s.push(vs[0]), n);
        lemma_pushed_all_from(next, n, vs.drop_first());
        assert(newest(next + vs.drop_first(), n) =~= newest(s + vs, n));
    }
}

/// Keeping the newest after each push is keeping the newest of all.
pub proof fn lemma_newest_of_pushed<T>(s: Seq<T>, n: nat, value: T)
    ensures
        newest(newest(s, n).push(value), n) == newest(s.push(value), n),
{
    assert(newest(newest(s, n).push(value), n) =~= newest(s.push(value), n));
}

} // verus!
