//! Fixed-capacity rolling windows of metric samples.
//!
//! A window keeps the most recent values of one metric stream in
//! chronological order, oldest first. Appending to a full window evicts
//! exactly the oldest element, so the length never exceeds the capacity.

use vstd::prelude::*;

verus! {

/// The sequence that results from appending `v` to a window holding `s`
/// with capacity `cap`: the oldest element is dropped first when `s` is
/// already at capacity.
pub open spec fn rolled(s: Seq<u64>, cap: nat, v: u64) -> Seq<u64> {
    if s.len() < cap {
        s.push(v)
    } else {
        s.drop_first().push(v)
    }
}

/// A fixed-capacity FIFO sequence of `u64` metric values, oldest first.
pub struct RollingWindow {
    values: Vec<u64>,
    capacity: usize,
}

impl View for RollingWindow {
    type V = Seq<u64>;

    closed spec fn view(&self) -> Seq<u64> {
        self.values@
    }
}

impl RollingWindow {
    /// The fixed maximum length of this window.
    pub closed spec fn cap(&self) -> nat {
        self.capacity as nat
    }

    /// Well-formedness: the window never holds more than its capacity.
    pub open spec fn wf(&self) -> bool {
        self@.len() <= self.cap() && self.cap() > 0
    }

    /// A window pre-filled to capacity with zero values, so a fresh
    /// display starts with a full-width (all-zero) graph.
    pub fn new_filled(capacity: usize) -> (w: RollingWindow)
        requires
            capacity > 0,
        ensures
            w.wf(),
            w.cap() == capacity,
            w@ == Seq::new(capacity as nat, |i: int| 0u64),
    {
        let mut values: Vec<u64> = Vec::new();
        while values.len() < capacity
            invariant
                values@.len() <= capacity,
                forall|i: int| 0 <= i < values@.len() ==> values@[i] == 0u64,
            decreases capacity - values@.len(),
        {
            values.push(0u64);
        }
        proof {
            assert(values@ =~= Seq::new(capacity as nat, |i: int| 0u64));
        }
        RollingWindow { values, capacity }
    }

    /// Append `v`, evicting the oldest element first when at capacity.
    pub fn push(&mut self, v: u64)
        requires
            old(self).wf(),
        ensures
            final(self).wf(),
            final(self).cap() == old(self).cap(),
            final(self)@ == rolled(old(self)@, old(self).cap(), v),
    {
        if self.values.len() == self.capacity {
            let _ = self.values.remove(0);
            proof {
                assert(self.values@ =~= old(self)@.drop_first());
            }
        }
        self.values.push(v);
    }

    pub fn len(&self) -> (n: usize)
        ensures
            n == self@.len(),
    {
        self.values.len()
    }

    pub fn capacity(&self) -> (c: usize)
        ensures
            c == self.cap(),
    {
        self.capacity
    }

    /// The whole window, oldest value first, for the rendering layer.
    pub fn values(&self) -> (r: &Vec<u64>)
        ensures
            r@ == self@,
    {
        &self.values
    }

    /// The most recently appended value.
    pub fn latest(&self) -> (r: u64)
        requires
            self@.len() > 0,
        ensures
            r == self@.last(),
    {
        self.values[self.values.len() - 1]
    }
}

/// Appending to a full window removes exactly the oldest element and
/// appends the new one at the end; the surviving elements keep their
/// relative order.
pub proof fn lemma_roll_at_capacity(s: Seq<u64>, cap: nat, v: u64)
    requires
        s.len() == cap,
        cap > 0,
    ensures
        rolled(s, cap, v).len() == cap,
        rolled(s, cap, v).last() == v,
        forall|i: int| 0 <= i < cap - 1 ==> rolled(s, cap, v)[i] == s[i + 1],
{
}

/// Appending never grows a well-formed window beyond its capacity.
pub proof fn lemma_roll_bounded(s: Seq<u64>, cap: nat, v: u64)
    requires
        s.len() <= cap,
        cap > 0,
    ensures
        rolled(s, cap, v).len() <= cap,
{
}

} // verus!
