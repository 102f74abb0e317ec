use vstd::prelude::*;

verus! {

/// The newest `n` items of `s`: all of `s` when it is short enough, otherwise its last `n` items.
pub open spec fn newest<T>(s: Seq<T>, n: nat) -> Seq<T> {
    if s.len() <= n {
        s
    } else {
        s.subrange(s.len() - n, s.len() as int)
    }
}

/// The slot that follows `index` in a ring of `capacity` slots.
pub open spec fn next_slot(index: int, capacity: int) -> int {
    if index + 1 == capacity {
        0
    } else {
        index + 1
    }
}

/// The slot `offset` places after `start` in a ring of `capacity` slots.
pub open spec fn slot_after(start: int, offset: int, capacity: int) -> int {
    if start + offset < capacity {
        start + offset
    } else {
        start + offset - capacity
    }
}

/// Number of queued items between the read and write positions.
pub open spec fn queued_len(read: int, write: int, capacity: int) -> int {
    if read <= write {
        write - read
    } else {
        write + capacity - read
    }
}

/// A bounded ring of samples that never blocks its writer: when it is full, a
/// new sample pushes out the oldest one. A ring of `capacity` slots queues at
/// most `capacity - 1` samples, oldest first.
pub struct AudioRing<T> {
    buffer: Vec<T>,
    capacity: usize,
    read: usize,
    write: usize,
}

impl<T> AudioRing<T> {
    /// Number of slots of the ring.
    pub closed spec fn spec_capacity(&self) -> nat {
        self.capacity as nat
    }

    /// The ring's internal consistency: one slot per capacity unit, both positions in range.
    pub closed spec fn inv(&self) -> bool {
        &&& self.capacity > 1
        &&& self.buffer@.len() == self.capacity
        &&& self.read < self.capacity
        &&& self.write < self.capacity
    }

    /// The queued samples, oldest first.
    pub closed spec fn queued(&self) -> Seq<T> {
        Seq::new(
            queued_len(self.read as int, self.write as int, self.capacity as int) as nat,
            |i: int| self.buffer@[slot_after(self.read as int, i, self.capacity as int)],
        )
    }

    /// Every ring holds fewer samples than it has slots.
    pub proof fn law_holds_fewer_than_capacity(&self)
        requires
            self.inv(),
        ensures
            self@.len() < self.spec_capacity(),
    {
    }
}

impl<T> View for AudioRing<T> {
    type V = Seq<T>;

    closed spec fn view(&self) -> Seq<T> {
        self.queued()
    }
}

/// Index of the slot that follows `index` in a ring of `capacity` slots.
fn next_index(index: usize, capacity: usize) -> (r: usize)
    requires
        index < capacity,
    ensures
        r == next_slot(index as int, capacity as int),
{
    let next = index + 1;
    if next == capacity {
        0
    } else {
        next
    }
}

impl<T: Copy + Default> AudioRing<T> {
    /// Creates an empty ring with `capacity` slots (room for `capacity - 1` samples).
    pub fn new(capacity: usize) -> (ring: Self)
        requires
            capacity > 1,
        ensures
            ring.inv(),
            ring@ == Seq::<T>::empty(),
            ring.spec_capacity() == capacity,
    {
        let fill = T::default();
        let mut buffer: Vec<T> = Vec::new();
        while buffer.len() < capacity
            invariant
                buffer@.len() <= capacity,
            decreases capacity - buffer@.len(),
        {
            buffer.push(fill);
        }
        let ring = AudioRing { buffer, capacity, read: 0, write: 0 };
        assert(ring@ =~= Seq::<T>::empty());
        ring
    }
}

impl<T: Copy> AudioRing<T> {
    /// Appends `sample`; when the ring is full the oldest queued sample is dropped first.
    pub fn push_lossy(&mut self, sample: T)
        requires
            old(self).inv(),
        ensures
            final(self).inv(),
            final(self).spec_capacity() == old(self).spec_capacity(),
            final(self)@ == newest(old(self)@.push(sample), (old(self).spec_capacity() - 1) as nat),
    {
        let ghost v0 = self@;
        let capacity = self.capacity;
        let write = self.write;
        let next = next_index(write, capacity);
        if next == self.read {
            self.read = next_index(self.read, capacity);
        }
        self.buffer.set(write, sample);
        self.write = next;
        let ghost target = newest(v0.push(sample), (capacity - 1) as nat);
        assert(self@.len() == target.len());
        assert forall|i: int| 0 <= i < self@.len() implies #[trigger] self@[i] == target[i] by {}
        assert(self@ =~= target);
    }

    /// Appends every sample of `samples` in order, dropping the oldest queued samples as needed.
    pub fn push_slice_lossy(&mut self, samples: &[T])
        requires
            old(self).inv(),
        ensures
            final(self).inv(),
            final(self).spec_capacity() == old(self).spec_capacity(),
            final(self)@ == newest(old(self)@ + samples@, (old(self).spec_capacity() - 1) as nat),
    {
        let ghost v0 = self@;
        let ghost n = (self.spec_capacity() - 1) as nat;
        proof {
            self.law_holds_fewer_than_capacity();
            assert(v0 + samples@.take(0) =~= v0);
        }
        let mut index: usize = 0;
        while index < samples.len()
            invariant
                self.inv(),
                self.spec_capacity() == old(self).spec_capacity(),
                n == self.spec_capacity() - 1,
                index <= samples@.len(),
                self@ == newest(v0 + samples@.take(index as int), n),
            decreases samples@.len() - index,
        {
            let sample = samples[index];
            self.push_lossy(sample);
            proof {
                lemma_newest_append(v0 + samples@.take(index as int), seq![sample], n);
                assert((v0 + samples@.take(index as int)) + seq![sample] =~= v0 + samples@.take(
                    index + 1,
                ));
            }
            index = index + 1;
        }
        proof {
            assert(samples@.take(samples@.len() as int) =~= samples@);
        }
    }

    /// Moves queued samples, oldest first, into the front of `out` until `out` is full or the
    /// ring is empty; returns how many were moved.
    pub fn pop_into(&mut self, out: &mut [T]) -> (count: usize)
        requires
            old(self).inv(),
        ensures
            final(self).inv(),
            final(self).spec_capacity() == old(self).spec_capacity(),
            count == if old(out)@.len() < old(self)@.len() {
                old(out)@.len()
            } else {
                old(self)@.len()
            },
            final(out)@ == old(self)@.take(count as int) + old(out)@.skip(count as int),
            final(self)@ == old(self)@.skip(count as int),
    {
        let ghost v0 = self@;
        let ghost out0 = out@;
        let mut count: usize = 0;
        while count < out.len() && self.read != self.write
            invariant
                self.inv(),
                self.spec_capacity() == old(self).spec_capacity(),
                count <= out0.len(),
                count <= v0.len(),
                out@.len() == out0.len(),
                self@ == v0.skip(count as int),
                out@ == v0.take(count as int) + out0.skip(count as int),
            decreases out0.len() - count,
        {
            let ghost before = self@;
            let ghost out_before = out@;
            let sample = self.buffer[self.read];
            assert(sample == before[0]);
            out[count] = sample;
            self.read = next_index(self.read, self.capacity);
            assert(self@.len() == before.len() - 1);
            assert forall|i: int| 0 <= i < self@.len() implies #[trigger] self@[i] == before[i + 1] by {
            }
            assert(self@ =~= before.drop_first());
            assert(out@ == out_before.update(count as int, sample));
            count = count + 1;
            assert(self@ =~= v0.skip(count as int));
            assert(out@ =~= v0.take(count as int) + out0.skip(count as int));
        }
        count
    }
}

/// Keeping the newest `n` items, appending `more`, and keeping the newest `n` again is the
/// same as appending `more` first and keeping the newest `n` once.
pub proof fn lemma_newest_append<T>(s: Seq<T>, more: Seq<T>, n: nat)
    ensures
        newest(newest(s, n) + more, n) == newest(s + more, n),
{
    if s.len() > n {
        assert(newest(newest(s, n) + more, n) =~= newest(s + more, n));
    } else {
        assert(newest(s, n) == s);
    }
}

/// Two lossy batch writes leave a ring as one write of both batches, in order, would.
pub proof fn law_push_in_batches<T>(queued: Seq<T>, first: Seq<T>, second: Seq<T>, capacity: nat)
    requires
        capacity > 1,
    ensures
        newest(newest(queued + first, (capacity - 1) as nat) + second, (capacity - 1) as nat)
            == newest(queued + (first + second), (capacity - 1) as nat),
{
    lemma_newest_append(queued + first, second, (capacity - 1) as nat);
    assert(queued + first + second =~= queued + (first + second));
}

/// Once at least `capacity - 1` samples have been written, the ring holds exactly the last
/// `capacity - 1` of them, whatever it held before.
pub proof fn law_newest_samples_survive<T>(queued: Seq<T>, written: Seq<T>, capacity: nat)
    requires
        capacity > 1,
        written.len() >= capacity - 1,
    ensures
        newest(queued + written, (capacity - 1) as nat) == written.subrange(
            written.len() - (capacity - 1),
            written.len() as int,
        ),
{
    assert(newest(queued + written, (capacity - 1) as nat) =~= written.subrange(
        written.len() - (capacity - 1),
        written.len() as int,
    ));
}

/// A read loses and repeats nothing: what it hands out followed by what stays queued is
/// what was queued before.
pub proof fn law_pop_splits_queue<T>(queued: Seq<T>, count: nat)
    requires
        count <= queued.len(),
    ensures
        queued.take(count as int) + queued.skip(count as int) == queued,
{
    assert(queued.take(count as int) + queued.skip(count as int) =~= queued);
}

} // verus!
