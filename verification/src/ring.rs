//! Fixed-capacity ring of recent scalar values.
//!
//! The buffer is allocated at its full capacity, initially all zeros, and a
//! rotating write position overwrites the oldest slot on every `add`. It
//! backs the sliding-window detectors, which only ever count over the
//! buffer's contents, so the view is the plain sequence of stored values.

use vstd::prelude::*;

verus! {

/// Number of entries of `s` strictly greater than `t`.
pub open spec fn count_gt(s: Seq<int>, t: int) -> int
    decreases s.len(),
{
    if s.len() == 0 {
        0
    } else {
        count_gt(s.drop_last(), t) + if s.last() > t {
            1int
        } else {
            0int
        }
    }
}

/// The count of entries above a threshold never exceeds the length.
pub proof fn lemma_count_gt_bounds(s: Seq<int>, t: int)
    ensures
        0 <= count_gt(s, t) <= s.len(),
    decreases s.len(),
{
    if s.len() > 0 {
        lemma_count_gt_bounds(s.drop_last(), t);
    }
}

/// Fixed-capacity FIFO of recent values, oldest overwritten first.
pub struct RingBuffer {
    data: Vec<i64>,
    next: usize,
}

impl View for RingBuffer {
    type V = Seq<int>;

    closed spec fn view(&self) -> Seq<int> {
        self.data@.map(|i: int, x: i64| x as int)
    }
}

impl RingBuffer {
    /// The rotating write position stays inside the buffer.
    pub closed spec fn wf(&self) -> bool {
        if self.data.len() == 0 {
            self.next == 0
        } else {
            self.next < self.data.len()
        }
    }

    /// A zero-filled buffer of the given capacity.
    pub fn new(capacity: usize) -> (r: RingBuffer)
        ensures
            r.wf(),
            r@.len() == capacity,
            r.spec_next() == 0,
            forall|i: int| 0 <= i < capacity ==> #[trigger] r@[i] == 0,
    {
        let mut data: Vec<i64> = Vec::new();
        let mut k: usize = 0;
        while k < capacity
            invariant
                data.len() == k,
                k <= capacity,
                forall|i: int| 0 <= i < k ==> #[trigger] data@[i] == 0,
            decreases capacity - k,
        {
            data.push(0);
            k = k + 1;
        }
        RingBuffer { data, next: 0 }
    }

    /// Capacity of the buffer (also the number of stored entries).
    pub fn len(&self) -> (r: usize)
        ensures
            r == self@.len(),
    {
        self.data.len()
    }

    /// Overwrite the oldest entry with `element`; with capacity 0 there is
    /// nothing to store and the buffer stays empty.
    pub fn add(&mut self, element: i64)
        requires
            old(self).wf(),
        ensures
            final(self).wf(),
            final(self)@.len() == old(self)@.len(),
            old(self)@.len() > 0 ==> final(self)@ == old(self)@.update(
                old(self).spec_next() as int,
                element as int,
            ) && final(self).spec_next() == (if old(self).spec_next() + 1 == old(self)@.len() {
                0int
            } else {
                old(self).spec_next() + 1
            }),
            old(self)@.len() == 0 ==> final(self)@ == old(self)@ && final(self).spec_next()
                == old(self).spec_next(),
    {
        if self.data.len() > 0 {
            let i = self.next;
            self.data.set(i, element);
            self.next = if i + 1 == self.data.len() {
                0
            } else {
                i + 1
            };
            proof {
                assert(self@ =~= old(self)@.update(i as int, element as int));
            }
        }
    }

    /// Entry at `index` counted from the rotating write position.
    pub fn get(&self, index: usize) -> (r: Option<i64>)
        requires
            self.wf(),
        ensures
            match r {
                Some(v) => index < self@.len() && v as int == self@[(
                    (self.spec_next() + index) % self@.len() as int
                )],
                None => index >= self@.len(),
            },
    {
        if index >= self.data.len() {
            return None;
        }
        let room = self.data.len() - self.next;
        let adjusted = if index < room {
            self.next + index
        } else {
            index - room
        };
        proof {
            vstd::arithmetic::div_mod::lemma_fundamental_div_mod_converse(
                self.spec_next() + index as int,
                self@.len() as int,
                if index < room { 0int } else { 1int },
                adjusted as int,
            );
        }
        Some(self.data[adjusted])
    }

    /// The rotating write position (spec-level).
    pub closed spec fn spec_next(&self) -> usize {
        self.next
    }

    /// Count of stored entries strictly above `threshold`.
    pub fn count_above(&self, threshold: i64) -> (r: usize)
        ensures
            r == count_gt(self@, threshold as int),
            r <= self@.len(),
    {
        proof {
            lemma_count_gt_bounds(self@, threshold as int);
        }
        let mut k: usize = 0;
        let mut c: usize = 0;
        while k < self.data.len()
            invariant
                k <= self.data.len(),
                c == count_gt(self@.take(k as int), threshold as int),
                c <= k,
            decreases self.data.len() - k,
        {
            proof {
                lemma_count_gt_bounds(self@.take(k as int), threshold as int);
                assert(self@.take(k as int + 1).drop_last() == self@.take(k as int));
                assert(self@.take(k as int + 1).last() == self@[k as int]);
            }
            if self.data[k] > threshold {
                c = c + 1;
            }
            k = k + 1;
        }
        proof {
            assert(self@.take(self@.len() as int) == self@);
        }
        c
    }
}

} // verus!
