use vstd::prelude::*;

use crate::float::Float;

verus! {

/// What overlap-adding `other` onto the tail of `buffer` yields here:
/// up to `ov` leading samples of `other` are summed into the last `ov`
/// samples of `buffer`, and whatever remains of `other` is appended.
pub open spec fn ola_tail_s<T: Float>(buffer: Seq<T>, other: Seq<T>, ov: int) -> Seq<T> {
    let base = buffer.len() as int;
    buffer.take(base - ov) + Seq::new(
        ov as nat,
        |j: int|
            if j < other.len() {
                buffer[base - ov + j].add_s(other[j])
            } else {
                buffer[base - ov + j]
            },
    ) + if other.len() > ov {
        other.skip(ov)
    } else {
        Seq::<T>::empty()
    }
}

/// The overlap-added stream of the first `k` frames, starting from one
/// overlap of zeros.
pub open spec fn ola_stream_s<T: Float>(frames: Seq<Seq<T>>, ov: int, k: int) -> Seq<T>
    decreases k,
{
    if k <= 0 {
        Seq::new(ov as nat, |j: int| T::zero_s())
    } else {
        ola_tail_s(ola_stream_s(frames, ov, k - 1), frames[k - 1], ov)
    }
}

/// Sums the head of `other` into the last `overlap_size` samples of
/// `buffer` and appends the rest.
pub fn buffer_overlapping_write<T: Float>(overlap_size: usize, buffer: &mut Vec<T>, other: &[T])
    requires
        overlap_size <= old(buffer)@.len(),
    ensures
        final(buffer)@ == ola_tail_s(old(buffer)@, other@, overlap_size as int),
        final(buffer)@.len() == old(buffer)@.len() + (if other@.len() > overlap_size {
            other@.len() - overlap_size
        } else {
            0int
        }),
{
    let base: usize = buffer.len();
    let ov: usize = overlap_size;
    let limit: usize = if other.len() <= ov {
        other.len()
    } else {
        ov
    };
    let mut i: usize = 0;
    while i < limit
        invariant
            i <= limit,
            ov <= base,
            limit <= ov,
            limit <= other@.len(),
            base == buffer@.len(),
            forall|j: int| 0 <= j < base - ov ==> buffer@[j] == old(buffer)@[j],
            forall|j: int|
                base - ov <= j < base - ov + i ==> buffer@[j] == old(buffer)@[j].add_s(
                    other@[j - (base - ov)],
                ),
            forall|j: int| base - ov + i <= j < base ==> buffer@[j] == old(buffer)@[j],
        decreases limit - i,
    {
        let pos: usize = base - ov + i;
        let x = buffer[pos].add_f(other[i]);
        buffer.set(pos, x);
        i = i + 1;
    }
    let mut k: usize = limit;
    while k < other.len()
        invariant
            limit <= k <= other@.len(),
            ov <= base,
            limit <= ov,
            buffer@.len() == base + k - limit,
            forall|j: int| 0 <= j < base - ov ==> buffer@[j] == old(buffer)@[j],
            forall|j: int|
                base - ov <= j < base - ov + limit ==> buffer@[j] == old(buffer)@[j].add_s(
                    other@[j - (base - ov)],
                ),
            forall|j: int| base - ov + limit <= j < base ==> buffer@[j] == old(buffer)@[j],
            forall|j: int| base <= j < buffer@.len() ==> buffer@[j] == other@[j - base + limit],
        decreases other@.len() - k,
    {
        buffer.push(other[k]);
        k = k + 1;
    }
    proof {
        assert(buffer@ =~= ola_tail_s(old(buffer)@, other@, overlap_size as int));
    }
}

/// Appending a frame commutes with having dropped an already-emitted
/// prefix, as long as the prefix stays clear of the overlap tail.
proof fn lemma_ola_tail_skip<T: Float>(stream: Seq<T>, other: Seq<T>, ov: int, d: int)
    requires
        0 <= ov,
        0 <= d <= stream.len() - ov,
    ensures
        ola_tail_s(stream.skip(d), other, ov) == ola_tail_s(stream, other, ov).skip(d),
{
    assert(ola_tail_s(stream.skip(d), other, ov) =~= ola_tail_s(stream, other, ov).skip(d));
}

/// The walking state of an overlap-added flattening: the frames still
/// to be consumed, a working buffer, and a cursor into it. The last
/// `overlap_size` samples of the buffer are never emitted before the
/// next frame has been summed into them.
struct OverlappingFlattenCompat<T: Float> {
    frames: Vec<Vec<T>>,
    cursor: usize,
    overlap_size: usize,
    buffer: Vec<T>,
    offset: usize,
    dropped: Ghost<int>,
}

impl<T: Float> OverlappingFlattenCompat<T> {
    /// The frames as mathematical sequences.
    closed spec fn frames_s(&self) -> Seq<Seq<T>> {
        self.frames@.map_values(|v: Vec<T>| v@)
    }

    closed spec fn wf(&self) -> bool {
        &&& self.cursor <= self.frames@.len()
        &&& self.offset <= self.overlap_size
        &&& self.offset + self.overlap_size <= self.buffer@.len()
        &&& self.dropped@ >= 0
        &&& self.dropped@ + self.buffer@.len() == ola_stream_s(
            self.frames_s(),
            self.overlap_size as int,
            self.cursor as int,
        ).len()
        &&& self.buffer@ == ola_stream_s(
            self.frames_s(),
            self.overlap_size as int,
            self.cursor as int,
        ).skip(self.dropped@)
        &&& (forall|i: int|
            0 <= i < self.frames@.len() ==> (#[trigger] self.frames@[i])@.len()
                > self.overlap_size)
    }

    /// How many samples have been emitted so far.
    closed spec fn emitted_s(&self) -> int {
        self.dropped@ + self.offset
    }

    /// Whether the walk is over: every frame has been consumed and
    /// only the final overlap reserve is left in the buffer.
    closed spec fn exhausted_s(&self) -> bool {
        self.cursor == self.frames@.len() && self.buffer@.len() == self.offset
            + self.overlap_size
    }

    fn new(frames: Vec<Vec<T>>, overlap_size: usize) -> (r: Self)
        requires
            forall|i: int| 0 <= i < frames@.len() ==> (#[trigger] frames@[i])@.len() > overlap_size,
        ensures
            r.wf(),
            r.frames_s() == frames@.map_values(|v: Vec<T>| v@),
            r.overlap_size == overlap_size,
            r.emitted_s() == 0,
    {
        let mut buffer: Vec<T> = Vec::new();
        let mut i: usize = 0;
        while i < overlap_size
            invariant
                i <= overlap_size,
                buffer@.len() == i,
                forall|j: int| 0 <= j < i ==> buffer@[j] == T::zero_s(),
            decreases overlap_size - i,
        {
            buffer.push(T::zero_f());
            i = i + 1;
        }
        let r = OverlappingFlattenCompat {
            frames,
            cursor: 0,
            overlap_size,
            buffer,
            offset: 0,
            dropped: Ghost(0),
        };
        proof {
            assert(r.buffer@ =~= ola_stream_s(r.frames_s(), overlap_size as int, 0).skip(0));
        }
        r
    }

    /// The next fully summed sample of the overlap-added stream, in
    /// order, or nothing once every frame has been consumed and only
    /// the final overlap tail is left.
    fn next(&mut self) -> (r: Option<T>)
        requires
            old(self).wf(),
        ensures
            final(self).wf(),
            final(self).frames_s() == old(self).frames_s(),
            final(self).overlap_size == old(self).overlap_size,
            r is None <==> old(self).exhausted_s(),
            r is Some ==> final(self).emitted_s() == old(self).emitted_s() + 1,
            r is Some ==> r == Some(
                ola_stream_s(
                    old(self).frames_s(),
                    old(self).overlap_size as int,
                    final(self).cursor as int,
                )[old(self).emitted_s()],
            ),
            r is None ==> final(self).emitted_s() == old(self).emitted_s(),
    {
        let blen: usize = self.buffer.len();
        let require_size: usize = self.offset + self.overlap_size;

        if blen == require_size {
            if self.cursor >= self.frames.len() {
                return None;
            }
            let frame = &self.frames[self.cursor];
            proof {
                assert(self.frames@[self.cursor as int]@.len() > self.overlap_size);
                assert(self.dropped@ <= ola_stream_s(
                    self.frames_s(),
                    self.overlap_size as int,
                    self.cursor as int,
                ).len() - self.overlap_size);
            }
            let ghost stream_k = ola_stream_s(
                self.frames_s(),
                self.overlap_size as int,
                self.cursor as int,
            );
            buffer_overlapping_write(self.overlap_size, &mut self.buffer, frame.as_slice());
            proof {
                lemma_ola_tail_skip(
                    stream_k,
                    self.frames_s()[self.cursor as int],
                    self.overlap_size as int,
                    self.dropped@,
                );
            }
            self.cursor = self.cursor + 1;
        }

        let cur_len: usize = self.buffer.len();
        proof {
            assert(self.offset < cur_len);
        }
        let item = self.buffer[self.offset];
        proof {
            assert(item == ola_stream_s(
                self.frames_s(),
                self.overlap_size as int,
                self.cursor as int,
            )[self.emitted_s()]);
        }
        self.offset = self.offset + 1;
        if self.overlap_size < self.offset {
            let off: usize = self.offset;
            let ghost stream_now = ola_stream_s(
                self.frames_s(),
                self.overlap_size as int,
                self.cursor as int,
            );
            crate::transform::vec_drop_front(&mut self.buffer, off);
            proof {
                assert(stream_now.skip(self.dropped@).skip(off as int) =~= stream_now.skip(
                    self.dropped@ + off,
                ));
                self.dropped@ = self.dropped@ + off;
            }
            self.offset = 0;
        }
        Some(item)
    }
}

/// An overlap-added flattening of a sequence of frames, walked one
/// sample at a time.
pub struct OverlappingFlatten<T: Float> {
    inner: OverlappingFlattenCompat<T>,
}

impl<T: Float> OverlappingFlatten<T> {
    /// The frames being flattened, as mathematical sequences.
    pub closed spec fn frames_s(&self) -> Seq<Seq<T>> {
        self.inner.frames_s()
    }

    /// The overlap length.
    pub closed spec fn overlap_s(&self) -> int {
        self.inner.overlap_size as int
    }

    /// How many samples have been emitted so far.
    pub closed spec fn emitted_s(&self) -> int {
        self.inner.emitted_s()
    }

    /// Whether the walk is over: every frame has been consumed and
    /// only the final overlap reserve is left.
    pub closed spec fn exhausted_s(&self) -> bool {
        self.inner.exhausted_s()
    }

    pub closed spec fn wf(&self) -> bool {
        self.inner.wf()
    }

    /// The next sample of the overlap-added stream, or nothing once
    /// the stream is exhausted.
    pub fn next(&mut self) -> (r: Option<T>)
        requires
            old(self).wf(),
        ensures
            final(self).wf(),
            final(self).frames_s() == old(self).frames_s(),
            final(self).overlap_s() == old(self).overlap_s(),
            r is None <==> old(self).exhausted_s(),
            r is Some ==> final(self).emitted_s() == old(self).emitted_s() + 1,
            r is Some ==> exists|k: int|
                0 <= k <= old(self).frames_s().len() && r == Some(
                    #[trigger] ola_stream_s(old(self).frames_s(), old(self).overlap_s(), k)[old(
                        self,
                    ).emitted_s()],
                ),
            r is None ==> final(self).emitted_s() == old(self).emitted_s(),
    {
        let r = self.inner.next();
        proof {
            if r is Some {
                let k = self.inner.cursor as int;
                assert(0 <= k <= old(self).frames_s().len());
                assert(r == Some(
                    ola_stream_s(old(self).frames_s(), old(self).overlap_s(), k)[old(
                        self,
                    ).emitted_s()],
                ));
            }
        }
        r
    }
}

/// Builds an overlap-added flattening of a collection of frames.
pub trait OverlappingFlattenTrait<T: Float>: Sized {
    /// The frames the collection holds, as mathematical sequences.
    open spec fn frames_model_s(&self) -> Seq<Seq<T>> {
        arbitrary()
    }

    /// Whether every frame is longer than the overlap, which the
    /// walker needs to make progress.
    open spec fn flatten_ok_s(&self, overlap_size: int) -> bool {
        arbitrary()
    }

    fn overlapping_flatten(self, overlap_size: usize) -> (r: OverlappingFlatten<T>)
        requires
            self.flatten_ok_s(overlap_size as int),
        ensures
            r.wf(),
            r.frames_s() == self.frames_model_s(),
            r.overlap_s() == overlap_size,
            r.emitted_s() == 0,
    ;
}

impl<T: Float> OverlappingFlattenTrait<T> for Vec<Vec<T>> {
    open spec fn frames_model_s(&self) -> Seq<Seq<T>> {
        self@.map_values(|v: Vec<T>| v@)
    }

    open spec fn flatten_ok_s(&self, overlap_size: int) -> bool {
        forall|i: int| 0 <= i < self@.len() ==> (#[trigger] self@[i])@.len() > overlap_size
    }

    fn overlapping_flatten(self, overlap_size: usize) -> (r: OverlappingFlatten<T>) {
        OverlappingFlatten { inner: OverlappingFlattenCompat::new(self, overlap_size) }
    }
}

} // verus!
