//! The delay line behind the echo effect: a ring of samples that is read
//! one slot ahead of where it is written.

use vstd::prelude::*;

verus! {

/// The contents of a ring and the place of its cursor.
pub struct Ring<T> {
    /// The samples, by slot.
    pub samples: Seq<T>,
    /// The slot that the next store writes.
    pub slot: int,
}

impl<T> Ring<T> {
    /// The ring is not empty and the cursor is on one of its slots.
    pub open spec fn wf(self) -> bool {
        0 <= self.slot < self.samples.len()
    }

    /// The slot after the cursor, wrapping at the end of the ring.
    pub open spec fn ahead(self) -> int {
        if self.slot + 1 == self.samples.len() {
            0
        } else {
            self.slot + 1
        }
    }

    /// The sample one slot ahead of the cursor.
    pub open spec fn tap(self) -> T {
        self.samples[self.ahead()]
    }

    /// The ring after `sample` was stored: it lies under the old cursor,
    /// and the cursor has moved on by one slot.
    pub open spec fn stored(self, sample: T) -> Ring<T> {
        Ring { samples: self.samples.update(self.slot, sample), slot: self.ahead() }
    }

    /// The ring after each of `samples` was stored, in their order.
    pub open spec fn fed(self, samples: Seq<T>) -> Ring<T>
        decreases samples.len(),
    {
        if samples.len() == 0 {
            self
        } else {
            self.stored(samples.first()).fed(samples.drop_first())
        }
    }

    /// The number of stores after which slot `j` is written.
    pub open spec fn stores_until(self, j: int) -> int {
        if j >= self.slot {
            j - self.slot
        } else {
            j - self.slot + self.samples.len()
        }
    }
}

/// A slot keeps its sample for as long as the cursor has not come round to it.
proof fn lemma_untouched_slot<T>(ring: Ring<T>, later: Seq<T>, j: int)
    requires
        ring.wf(),
        0 <= j < ring.samples.len(),
        later.len() <= ring.stores_until(j),
    ensures
        ring.fed(later).wf(),
        ring.fed(later).samples.len() == ring.samples.len(),
        ring.fed(later).samples[j] == ring.samples[j],
        ring.fed(later).stores_until(j) == ring.stores_until(j) - later.len(),
    decreases later.len(),
{
    if later.len() > 0 {
        lemma_untouched_slot(ring.stored(later.first()), later.drop_first(), j);
    }
}

/// A stored sample comes back at the tap once the cursor has gone round
/// the ring: in a ring of `n >= 2` slots after `n - 2` further stores, in a
/// ring of one slot at once.
pub proof fn lemma_stored_sample_returns<T>(ring: Ring<T>, sample: T, later: Seq<T>)
    requires
        ring.wf(),
        later.len() == if ring.samples.len() == 1 {
            0
        } else {
            ring.samples.len() - 2
        },
    ensures
        ring.stored(sample).fed(later).tap() == sample,
{
    lemma_untouched_slot(ring.stored(sample), later, ring.slot);
}

/// A ring of samples of fixed length, at least one.
///
/// On every sample the caller reads the tap, which is the oldest sample in
/// the ring, and then stores a new sample over the slot behind it.
pub struct Echo<T> {
    buffer: Vec<T>,
    idx: usize,
}

impl<T> Echo<T> {
    #[verifier::type_invariant]
    spec fn in_ring(&self) -> bool {
        self.idx < self.buffer@.len()
    }
}

impl<T: Copy> View for Echo<T> {
    type V = Ring<T>;

    closed spec fn view(&self) -> Ring<T> {
        Ring { samples: self.buffer@, slot: self.idx as int }
    }
}

impl<T: Copy> Echo<T> {
    /// A ring of `capacity` slots, or of one slot if `capacity` is zero,
    /// filled with `silence`, the cursor on its first slot.
    pub fn new(capacity: usize, silence: T) -> (echo: Echo<T>)
        ensures
            echo@.wf(),
            echo@.samples.len() == if capacity == 0 {
                1
            } else {
                capacity as int
            },
            forall|i: int| 0 <= i < echo@.samples.len() ==> echo@.samples[i] == silence,
            echo@.slot == 0,
    {
        let length = if capacity == 0 {
            1
        } else {
            capacity
        };
        let mut buffer: Vec<T> = Vec::with_capacity(length);
        let mut filled: usize = 0;
        while filled < length
            invariant
                filled <= length,
                buffer@.len() == filled,
                forall|i: int| 0 <= i < filled ==> buffer@[i] == silence,
            decreases length - filled,
        {
            buffer.push(silence);
            filled += 1;
        }
        Echo { buffer, idx: 0 }
    }

    /// The number of slots in the ring.
    pub fn len(&self) -> (length: usize)
        ensures
            length == self@.samples.len(),
            self@.wf(),
    {
        proof {
            use_type_invariant(self);
        }
        self.buffer.len()
    }

    /// The sample one slot ahead of the cursor: the oldest in the ring.
    pub fn tap(&self) -> (sample: T)
        ensures
            self@.wf(),
            sample == self@.tap(),
    {
        proof {
            use_type_invariant(self);
        }
        let length = self.buffer.len();
        let ahead = if self.idx + 1 == length {
            0
        } else {
            self.idx + 1
        };
        self.buffer[ahead]
    }

    /// Writes `sample` into the slot under the cursor and moves the cursor
    /// on by one slot, wrapping.
    pub fn store(&mut self, sample: T)
        ensures
            old(self)@.wf(),
            final(self)@ == old(self)@.stored(sample),
    {
        proof {
            use_type_invariant(&*self);
        }
        let length = self.buffer.len();
        self.buffer[self.idx] = sample;
        self.idx = if self.idx + 1 == length {
            0
        } else {
            self.idx + 1
        };
    }
}

} // verus!
