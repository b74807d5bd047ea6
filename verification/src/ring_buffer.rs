use vstd::prelude::*;

use crate::float::Float;

verus! {

/// A fixed-capacity ring buffer.
///
/// The backing vector holds one spare slot, so that a full and an empty
/// buffer can be told apart by the two positions alone. The readable
/// region runs from `read_pos` (inclusive) to `write_pos` (exclusive),
/// wrapping at the end of the backing vector.
pub struct RingBuffer<T: Copy> {
    pub buffer: Vec<T>,
    pub capacity: usize,
    pub read_pos: usize,
    pub write_pos: usize,
}

impl<T: Copy> RingBuffer<T> {
    /// Well-formedness: the backing vector has one slot more than the
    /// capacity, and both positions point into it.
    pub open spec fn wf(&self) -> bool {
        &&& self.buffer@.len() == self.capacity + 1
        &&& self.read_pos <= self.capacity
        &&& self.write_pos <= self.capacity
    }

    /// The backing-vector position that holds readable element `q`.
    pub open spec fn index_of(&self, q: int) -> int {
        if self.read_pos + q < self.buffer@.len() {
            self.read_pos + q
        } else {
            self.read_pos + q - self.buffer@.len()
        }
    }

    /// The readable contents, oldest first.
    pub open spec fn readable_s(&self) -> Seq<T> {
        if self.read_pos <= self.write_pos {
            self.buffer@.subrange(self.read_pos as int, self.write_pos as int)
        } else {
            self.buffer@.subrange(self.read_pos as int, self.buffer@.len() as int)
                + self.buffer@.subrange(0, self.write_pos as int)
        }
    }

    pub fn new(capacity: usize, value: T) -> (r: RingBuffer<T>)
        requires
            capacity < usize::MAX,
        ensures
            r.wf(),
            r.capacity == capacity,
            r.readable_s() == Seq::<T>::empty(),
    {
        let mut buffer: Vec<T> = Vec::new();
        let mut i: usize = 0;
        while i < capacity + 1
            invariant
                capacity < usize::MAX,
                i <= capacity + 1,
                buffer@.len() == i,
            decreases capacity + 1 - i,
        {
            buffer.push(value);
            i = i + 1;
        }
        let r = RingBuffer { buffer, capacity, read_pos: 0, write_pos: 0 };
        proof {
            assert(r.readable_s() =~= Seq::<T>::empty());
        }
        r
    }

    pub fn capacity(&self) -> (r: usize)
        ensures
            r == self.capacity,
    {
        self.capacity
    }

    /// How many samples can be read.
    pub fn num_readable(&self) -> (r: usize)
        requires
            self.wf(),
        ensures
            r == self.readable_s().len(),
    {
        if self.read_pos <= self.write_pos {
            self.write_pos - self.read_pos
        } else {
            (self.buffer.len() - self.read_pos) + self.write_pos
        }
    }

    /// How many samples can still be written.
    pub fn num_writable(&self) -> (r: usize)
        requires
            self.wf(),
        ensures
            r == self.capacity - self.readable_s().len(),
            self.readable_s().len() <= self.capacity,
    {
        self.capacity - self.num_readable()
    }

    pub fn is_full(&self) -> (r: bool)
        requires
            self.wf(),
        ensures
            r == (self.readable_s().len() == self.capacity),
    {
        self.num_writable() == 0
    }

    pub fn is_empty(&self) -> (r: bool)
        requires
            self.wf(),
        ensures
            r == (self.readable_s().len() == 0),
    {
        self.num_readable() == 0
    }

    /// Copies the oldest `dest.len()` readable samples into `dest`
    /// without consuming them. Fails, leaving `dest` untouched, when
    /// fewer are readable.
    pub fn read(&self, dest: &mut Vec<T>) -> (r: bool)
        requires
            self.wf(),
        ensures
            r == (old(dest)@.len() <= self.readable_s().len()),
            final(dest)@.len() == old(dest)@.len(),
            r ==> final(dest)@ == self.readable_s().take(old(dest)@.len() as int),
            !r ==> final(dest)@ == old(dest)@,
    {
        let length: usize = dest.len();

        if self.num_readable() < length {
            return false;
        }

        let buffer_length: usize = self.buffer.len();
        let mut i: usize = 0;
        while i < length
            invariant
                self.wf(),
                buffer_length == self.capacity + 1,
                length == dest@.len(),
                length <= self.readable_s().len(),
                i <= length,
                forall|j: int| 0 <= j < i ==> dest@[j] == self.readable_s()[j],
                forall|j: int| i <= j < length ==> dest@[j] == old(dest)@[j],
            decreases length - i,
        {
            let pos: usize = if self.read_pos < buffer_length - i {
                self.read_pos + i
            } else {
                i - (buffer_length - self.read_pos)
            };
            let x = self.buffer[pos];
            proof {
                assert(x == self.readable_s()[i as int]);
            }
            dest.set(i, x);
            i = i + 1;
        }
        proof {
            assert(dest@ =~= self.readable_s().take(length as int));
        }
        true
    }

    /// Appends `src` to the readable contents. Fails, changing nothing,
    /// when there is not enough room.
    #[verifier::rlimit(60)]
    pub fn write(&mut self, src: &[T]) -> (r: bool)
        requires
            old(self).wf(),
        ensures
            final(self).wf(),
            final(self).capacity == old(self).capacity,
            final(self).read_pos == old(self).read_pos,
            r == (src@.len() <= old(self).capacity - old(self).readable_s().len()),
            r ==> final(self).readable_s() == old(self).readable_s() + src@,
            !r ==> *final(self) == *old(self),
    {
        let length: usize = src.len();

        if self.num_writable() < length {
            return false;
        }

        let buffer_length: usize = self.buffer.len();
        let mut i: usize = 0;
        let ghost orig = *self;
        while i < length
            invariant
                self.wf(),
                orig.wf(),
                self.capacity == orig.capacity,
                self.read_pos == orig.read_pos,
                buffer_length == self.capacity + 1,
                length == src@.len(),
                length <= orig.capacity - orig.readable_s().len(),
                i <= length,
                self.readable_s() == orig.readable_s() + src@.take(i as int),
            decreases length - i,
        {
            let pos: usize = self.write_pos;
            let ghost before = *self;
            self.buffer.set(pos, src[i]);
            self.write_pos = if pos + 1 == buffer_length {
                0
            } else {
                pos + 1
            };
            proof {
                assert(self.readable_s() =~= before.readable_s() + seq![src@[i as int]]);
                assert(orig.readable_s() + src@.take(i as int + 1) =~= (orig.readable_s()
                    + src@.take(i as int)) + seq![src@[i as int]]);
            }
            i = i + 1;
        }
        proof {
            assert(src@.take(length as int) =~= src@);
        }
        true
    }

    /// Appends `length` copies of `value` to the readable contents.
    /// Fails, changing nothing, when there is not enough room.
    #[verifier::rlimit(60)]
    pub fn fill(&mut self, length: usize, value: T) -> (r: bool)
        requires
            old(self).wf(),
        ensures
            final(self).wf(),
            final(self).capacity == old(self).capacity,
            final(self).read_pos == old(self).read_pos,
            r == (length <= old(self).capacity - old(self).readable_s().len()),
            r ==> final(self).readable_s() == old(self).readable_s() + Seq::new(
                length as nat,
                |i: int| value,
            ),
            !r ==> *final(self) == *old(self),
    {
        if self.num_writable() < length {
            return false;
        }

        let buffer_length: usize = self.buffer.len();
        let mut i: usize = 0;
        let ghost orig = *self;
        while i < length
            invariant
                self.wf(),
                orig.wf(),
                self.capacity == orig.capacity,
                self.read_pos == orig.read_pos,
                buffer_length == self.capacity + 1,
                length <= orig.capacity - orig.readable_s().len(),
                i <= length,
                self.readable_s() == orig.readable_s() + Seq::new(i as nat, |k: int| value),
            decreases length - i,
        {
            let pos: usize = self.write_pos;
            let ghost before = *self;
            self.buffer.set(pos, value);
            self.write_pos = if pos + 1 == buffer_length {
                0
            } else {
                pos + 1
            };
            proof {
                assert(self.readable_s() =~= before.readable_s() + seq![value]);
                assert(orig.readable_s() + Seq::new(i as nat + 1, |k: int| value)
                    =~= (orig.readable_s() + Seq::new(i as nat, |k: int| value)) + seq![value]);
            }
            i = i + 1;
        }
        true
    }

    /// Drops the oldest `length` readable samples. Fails, changing
    /// nothing, when fewer are readable.
    pub fn discard(&mut self, length: usize) -> (r: bool)
        requires
            old(self).wf(),
        ensures
            final(self).wf(),
            final(self).capacity == old(self).capacity,
            final(self).write_pos == old(self).write_pos,
            r == (length <= old(self).readable_s().len()),
            r ==> final(self).readable_s() == old(self).readable_s().skip(length as int),
            !r ==> *final(self) == *old(self),
    {
        if self.num_readable() < length {
            return false;
        }

        let buffer_length: usize = self.buffer.len();
        let first: usize = buffer_length - self.read_pos;
        if length >= first {
            self.read_pos = length - first;
        } else {
            self.read_pos = self.read_pos + length;
        }
        proof {
            assert(self.readable_s() =~= old(self).readable_s().skip(length as int));
        }
        true
    }

    /// Empties the buffer.
    pub fn discard_all(&mut self)
        requires
            old(self).wf(),
        ensures
            final(self).wf(),
            final(self).capacity == old(self).capacity,
            final(self).readable_s() == Seq::<T>::empty(),
    {
        let n: usize = self.num_readable();
        self.discard(n);
        proof {
            assert(self.readable_s() =~= Seq::<T>::empty());
        }
    }
}

/// Updating the backing vector at the position of readable element `q`
/// updates the readable contents at `q` and nothing else.
proof fn lemma_update_at<T: Copy>(before: RingBuffer<T>, after: RingBuffer<T>, q: int, v: T)
    requires
        before.wf(),
        0 <= q < before.readable_s().len(),
        after.capacity == before.capacity,
        after.read_pos == before.read_pos,
        after.write_pos == before.write_pos,
        after.buffer@ == before.buffer@.update(before.index_of(q), v),
    ensures
        after.wf(),
        after.readable_s() == before.readable_s().update(q, v),
        before.readable_s()[q] == before.buffer@[before.index_of(q)],
{
    assert(after.readable_s() =~= before.readable_s().update(q, v));
}

/// Overlap-add into a sink that exposes its contents as a sequence:
/// the head of `src` is summed into the newest `overlap_size` samples
/// already present, and the rest of `src` is appended after them.
pub trait OverlappedAddable<T: Float>: Sized {
    /// Precondition the sink needs for any of its operations.
    open spec fn well_formed(&self) -> bool {
        arbitrary()
    }

    /// The samples the sink currently holds, oldest first.
    open spec fn contents_s(&self) -> Seq<T> {
        arbitrary()
    }

    /// How many samples the sink can still take.
    open spec fn spare_s(&self) -> int {
        arbitrary()
    }

    fn overlap_add(&mut self, src: &[T], overlap_size: usize) -> (r: bool)
        requires
            old(self).well_formed(),
        ensures
            final(self).well_formed(),
            r == (overlap_size <= src@.len() && overlap_size <= old(self).contents_s().len()
                && src@.len() - overlap_size <= old(self).spare_s()),
            r ==> final(self).contents_s() == old(self).contents_s().take(
                old(self).contents_s().len() - overlap_size,
            ) + Seq::new(
                overlap_size as nat,
                |i: int|
                    old(self).contents_s()[old(self).contents_s().len() - overlap_size + i].add_s(
                        src@[i],
                    ),
            ) + src@.skip(overlap_size as int),
            !r ==> *final(self) == *old(self),
    ;
}

impl<T: Float> OverlappedAddable<T> for RingBuffer<T> {
    open spec fn well_formed(&self) -> bool {
        self.wf()
    }

    open spec fn contents_s(&self) -> Seq<T> {
        self.readable_s()
    }

    open spec fn spare_s(&self) -> int {
        self.capacity - self.readable_s().len()
    }

    fn overlap_add(&mut self, src: &[T], overlap_size: usize) -> (r: bool) {
        let length: usize = src.len();

        if length < overlap_size {
            return false;
        }

        if self.num_readable() < overlap_size {
            return false;
        }

        let num_to_write_new: usize = length - overlap_size;
        if self.num_writable() < num_to_write_new {
            return false;
        }

        let buffer_length: usize = self.buffer.len();

        let write_start: usize = if self.write_pos >= overlap_size {
            self.write_pos - overlap_size
        } else {
            buffer_length - (overlap_size - self.write_pos)
        };

        let ghost orig = *self;
        let ghost n = orig.readable_s().len() as int;
        let mut i: usize = 0;
        while i < overlap_size
            invariant
                self.wf(),
                orig.wf(),
                self.capacity == orig.capacity,
                self.read_pos == orig.read_pos,
                self.write_pos == orig.write_pos,
                buffer_length == self.capacity + 1,
                length == src@.len(),
                overlap_size <= length,
                overlap_size <= n,
                n == orig.readable_s().len(),
                write_start == if orig.write_pos >= overlap_size {
                    orig.write_pos - overlap_size
                } else {
                    buffer_length - (overlap_size - orig.write_pos)
                },
                i <= overlap_size,
                self.readable_s().len() == n,
                forall|j: int|
                    0 <= j < n - overlap_size + i ==> self.readable_s()[j] == if j < n
                        - overlap_size {
                        orig.readable_s()[j]
                    } else {
                        orig.readable_s()[j].add_s(src@[j - (n - overlap_size)])
                    },
                forall|j: int|
                    n - overlap_size + i <= j < n ==> self.readable_s()[j] == orig.readable_s()[j],
            decreases overlap_size - i,
        {
            let pos: usize = if write_start < buffer_length - i {
                write_start + i
            } else {
                i - (buffer_length - write_start)
            };
            let ghost q = n - overlap_size + i;
            proof {
                assert(self.index_of(q) == pos as int);
                assert(self.readable_s()[q] == self.buffer@[pos as int]);
            }
            let x = self.buffer[pos].add_f(src[i]);
            let ghost before_upd = *self;
            self.buffer.set(pos, x);
            proof {
                lemma_update_at(before_upd, *self, q, x);
            }
            i = i + 1;
        }

        let mut tail: Vec<T> = Vec::new();
        let mut k: usize = overlap_size;
        while k < length
            invariant
                k <= length,
                overlap_size <= k,
                length == src@.len(),
                tail@.len() == k - overlap_size,
                forall|j: int| 0 <= j < k - overlap_size ==> tail@[j] == src@[overlap_size + j],
            decreases length - k,
        {
            tail.push(src[k]);
            k = k + 1;
        }
        proof {
            assert(tail@ =~= src@.skip(overlap_size as int));
        }
        let ok = self.write(tail.as_slice());
        proof {
            assert(ok);
            assert(self.contents_s() =~= orig.contents_s().take(n - overlap_size)
                + Seq::new(
                overlap_size as nat,
                |j: int| orig.contents_s()[n - overlap_size + j].add_s(src@[j]),
            ) + src@.skip(overlap_size as int));
        }
        true
    }
}

} // verus!
