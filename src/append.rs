//! The bounded append protocol of the corner and match lists.

use vstd::prelude::*;

verus! {

/// A fixed-capacity list filled by reserve-then-write appends.
///
/// Each append takes the counter's value as its slot and increments the
/// counter (saturating at `u32::MAX`). A slot at or past the capacity is not
/// written: the record is dropped but still counted, so the counter may
/// exceed the capacity and the number of written records is
/// `min(counter, capacity)`. Slots at or past that number hold stale content.
pub struct AppendBuffer<T> {
    slots: Vec<T>,
    counter: u32,
}

pub open spec fn min_nat(a: nat, b: nat) -> nat {
    if a <= b {
        a
    } else {
        b
    }
}

/// The counter after `n` reservations from zero.
pub open spec fn saturated(n: nat) -> nat {
    min_nat(n, u32::MAX as nat)
}

impl<T: Copy> AppendBuffer<T> {
    pub closed spec fn counter(&self) -> nat {
        self.counter as nat
    }

    pub closed spec fn slots(&self) -> Seq<T> {
        self.slots@
    }

    pub open spec fn capacity(&self) -> nat {
        self.slots().len()
    }

    pub open spec fn written(&self) -> nat {
        min_nat(self.counter(), self.capacity())
    }

    /// The records that may be read: the written prefix.
    pub open spec fn records(&self) -> Seq<T> {
        self.slots().take(self.written() as int)
    }

    /// After appends of the items of `s`, in order, to an emptied buffer,
    /// the counter and the written records are those that `s` determines.
    pub open spec fn holds_stream(&self, s: Seq<T>) -> bool {
        &&& self.counter() == saturated(s.len())
        &&& forall|k: int|
            0 <= k < min_nat(s.len(), self.capacity()) ==> #[trigger] self.slots()[k] == s[k]
    }

    /// A buffer of `capacity` slots, each holding `fill`, with a zero counter.
    pub fn new(capacity: usize, fill: T) -> (r: AppendBuffer<T>)
        ensures
            r.counter() == 0,
            r.slots() == Seq::new(capacity as nat, |_i: int| fill),
    {
        let mut slots: Vec<T> = Vec::new();
        let mut i: usize = 0;
        while i < capacity
            invariant
                i <= capacity,
                slots@ == Seq::new(i as nat, |_k: int| fill),
            decreases capacity - i,
        {
            slots.push(fill);
            i = i + 1;
            proof {
                assert(slots@ =~= Seq::new(i as nat, |_k: int| fill));
            }
        }
        AppendBuffer { slots, counter: 0 }
    }

    /// Resets the counter; the slots keep their stale content.
    pub fn clear(&mut self)
        ensures
            final(self).counter() == 0,
            final(self).slots() == old(self).slots(),
    {
        self.counter = 0;
    }

    pub fn capacity_len(&self) -> (r: usize)
        ensures
            r == self.capacity(),
    {
        self.slots.len()
    }

    /// All slots, written or stale.
    pub fn slot_vec(&self) -> (r: &Vec<T>)
        ensures
            r@ == self.slots(),
    {
        &self.slots
    }

    /// A copy of the whole buffer: counter and every slot.
    pub fn duplicate(&self) -> (r: AppendBuffer<T>)
        ensures
            r.counter() == self.counter(),
            r.slots() == self.slots(),
    {
        let mut slots: Vec<T> = Vec::new();
        let mut i: usize = 0;
        while i < self.slots.len()
            invariant
                i <= self.slots@.len(),
                slots@ == self.slots@.take(i as int),
            decreases self.slots@.len() - i,
        {
            slots.push(self.slots[i]);
            i = i + 1;
            proof {
                assert(slots@ =~= self.slots@.take(i as int));
            }
        }
        proof {
            assert(slots@ =~= self.slots@);
        }
        AppendBuffer { slots, counter: self.counter }
    }

    /// The raw counter, which may exceed the capacity.
    pub fn counter_value(&self) -> (r: u32)
        ensures
            r == self.counter(),
    {
        self.counter
    }

    /// How many records were written: the counter clamped to the capacity.
    pub fn written_len(&self) -> (r: usize)
        ensures
            r == self.written(),
    {
        if (self.counter as usize) < self.slots.len() {
            self.counter as usize
        } else {
            self.slots.len()
        }
    }

    /// The written record at index `i`.
    pub fn record(&self, i: usize) -> (r: T)
        requires
            i < self.written(),
        ensures
            r == self.records()[i as int],
    {
        self.slots[i]
    }

    /// The written records, in slot order.
    pub fn records_vec(&self) -> (r: Vec<T>)
        ensures
            r@ == self.records(),
    {
        let n = self.written_len();
        let mut out: Vec<T> = Vec::new();
        let mut i: usize = 0;
        while i < n
            invariant
                n == self.written(),
                i <= n,
                out@ == self.records().take(i as int),
            decreases n - i,
        {
            out.push(self.slots[i]);
            i = i + 1;
            proof {
                assert(out@ =~= self.records().take(i as int));
            }
        }
        proof {
            assert(out@ =~= self.records());
        }
        out
    }

    /// Reserves the next slot and writes `x` there if the slot is within
    /// capacity. Returns the slot written, or `None` when the record was dropped.
    pub fn append(&mut self, x: T) -> (r: Option<usize>)
        ensures
            final(self).counter() == saturated(old(self).counter() + 1),
            old(self).counter() < old(self).capacity() ==> {
                &&& r == Some(old(self).counter() as usize)
                &&& final(self).slots() == old(self).slots().update(old(self).counter() as int, x)
            },
            old(self).counter() >= old(self).capacity() ==> {
                &&& r is None
                &&& final(self).slots() == old(self).slots()
            },
    {
        let i = self.counter;
        if i < u32::MAX {
            self.counter = i + 1;
        }
        if (i as usize) < self.slots.len() {
            self.slots.set(i as usize, x);
            Some(i as usize)
        } else {
            None
        }
    }

    /// Appending `x` to a buffer that holds stream `s` gives one that holds `s` followed by `x`.
    pub fn append_to_stream(&mut self, x: T, Ghost(s): Ghost<Seq<T>>)
        requires
            old(self).holds_stream(s),
            s.len() < u32::MAX,
        ensures
            final(self).holds_stream(s.push(x)),
            final(self).capacity() == old(self).capacity(),
    {
        self.append(x);
        proof {
            assert forall|k: int|
                0 <= k < min_nat(s.push(x).len(), self.capacity()) implies #[trigger] self.slots()[k]
                == s.push(x)[k] by {
                if k < s.len() {
                    assert(old(self).slots()[k] == s[k]);
                } else {
                    assert(old(self).counter() == k);
                }
            }
        }
    }
}

/// A buffer that holds a stream has written exactly its first
/// `min(len, capacity)` items.
pub proof fn lemma_records_of_stream<T: Copy>(b: &AppendBuffer<T>, s: Seq<T>)
    requires
        b.holds_stream(s),
        s.len() <= u32::MAX,
    ensures
        b.written() == min_nat(s.len(), b.capacity()),
        b.records() == s.take(min_nat(s.len(), b.capacity()) as int),
{
    assert(b.records() =~= s.take(min_nat(s.len(), b.capacity()) as int));
}

} // verus!
