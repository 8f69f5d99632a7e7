//! A bounded window of the most recent observations, oldest first.
use std::collections::VecDeque;
use vstd::prelude::*;

verus! {

/// How many observations a window created with `max_len` holds at most: a
/// push always stores its value, so a window of length 0 still keeps one.
pub open spec fn spec_capacity(max_len: nat) -> nat {
    if max_len == 0 {
        1
    } else {
        max_len
    }
}

/// The window `s` after pushing `x`: when it already holds `max_len` or more
/// observations the oldest one leaves first.
pub open spec fn spec_push<T>(s: Seq<T>, max_len: nat, x: T) -> Seq<T> {
    if s.len() >= max_len && s.len() > 0 {
        s.drop_first().push(x)
    } else {
        s.push(x)
    }
}

/// The window after pushing every element of `xs`, in order, into an empty
/// window.
pub open spec fn spec_push_all<T>(xs: Seq<T>, max_len: nat) -> Seq<T>
    decreases xs.len(),
{
    if xs.len() == 0 {
        Seq::empty()
    } else {
        spec_push(spec_push_all(xs.drop_last(), max_len), max_len, xs.last())
    }
}

/// The last `spec_capacity(max_len)` elements of `xs` (all of them when there
/// are fewer).
pub open spec fn spec_most_recent<T>(xs: Seq<T>, max_len: nat) -> Seq<T> {
    let cap: nat = spec_capacity(max_len);
    if xs.len() > cap {
        xs.subrange(xs.len() - cap, xs.len() as int)
    } else {
        xs
    }
}

/// A rolling window over the latest observations of a stream.
#[derive(Debug)]
pub struct RollingState<T> {
    prices: VecDeque<T>,
    max_len: usize,
}

impl<T> View for RollingState<T> {
    type V = Seq<T>;

    /// The observations held, oldest first.
    closed spec fn view(&self) -> Seq<T> {
        self.prices@
    }
}

impl<T: Copy> RollingState<T> {
    /// The length the window was created with.
    pub closed spec fn max_len(&self) -> nat {
        self.max_len as nat
    }

    /// An empty window that keeps the latest `max_len` observations.
    pub fn new(max_len: usize) -> (w: Self)
        ensures
            w@ == Seq::<T>::empty(),
            w.max_len() == max_len,
    {
        RollingState { prices: VecDeque::with_capacity(max_len), max_len }
    }

    /// Adds the newest observation, dropping the oldest one when the window
    /// is full.
    pub fn push(&mut self, price: T)
        ensures
            final(self)@ == spec_push(old(self)@, old(self).max_len(), price),
            final(self).max_len() == old(self).max_len(),
    {
        if self.prices.len() >= self.max_len {
            self.prices.pop_front();
        }
        self.prices.push_back(price);
        proof {
            if old(self)@.len() > 0 && old(self)@.len() >= self.max_len {
                assert(old(self)@.drop_first() =~= old(self)@.subrange(1, old(self)@.len() as int));
            }
        }
    }

    /// How many observations the window holds.
    pub fn len(&self) -> (n: usize)
        ensures
            n == self@.len(),
    {
        self.prices.len()
    }

    /// The newest observation, if any.
    pub fn last(&self) -> (x: Option<T>)
        ensures
            self@.len() == 0 ==> x is None,
            self@.len() > 0 ==> x == Some(self@.last()),
    {
        let n: usize = self.prices.len();
        if n == 0 {
            None
        } else {
            Some(self.prices[n - 1])
        }
    }

    /// The observations held, oldest first.
    pub fn prices(&self) -> (q: &VecDeque<T>)
        ensures
            q@ == self@,
    {
        &self.prices
    }
}

/// A window never holds more than its capacity.
pub proof fn lemma_push_bounded<T>(s: Seq<T>, max_len: nat, x: T)
    requires
        s.len() <= spec_capacity(max_len),
    ensures
        spec_push(s, max_len, x).len() <= spec_capacity(max_len),
        spec_push(s, max_len, x).last() == x,
{
}

/// Pushing a stream into an empty window leaves exactly the most recent
/// `spec_capacity(max_len)` values of the stream, oldest first.
pub proof fn lemma_push_all_keeps_most_recent<T>(xs: Seq<T>, max_len: nat)
    ensures
        spec_push_all(xs, max_len) == spec_most_recent(xs, max_len),
    decreases xs.len(),
{
    if xs.len() > 0 {
        let prev = xs.drop_last();
        lemma_push_all_keeps_most_recent(prev, max_len);
        let cap: nat = spec_capacity(max_len);
        let w = spec_most_recent(prev, max_len);
        assert(spec_push(w, max_len, xs.last()) =~= spec_most_recent(xs, max_len));
    }
}

} // verus!
