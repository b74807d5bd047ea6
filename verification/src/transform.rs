use vstd::prelude::*;

use crate::float::Float;

verus! {

/// A caller-supplied processor mapping one time-domain frame to one
/// frame of the same length.
///
/// The framing engine hands every frame to such a processor between
/// taking the frame apart and overlap-adding it back together. The
/// spectral effects of this crate implement it; so can any client.
pub trait FrameProcessor<T: Float>: Sized {
    /// Which frame lengths the processor is prepared to take.
    open spec fn accepts_s(&self, len: int) -> bool {
        arbitrary()
    }

    /// Whether the processor's output is a function of its state and
    /// the frame alone, so that [`model_s`](FrameProcessor::model_s)
    /// names it. A processor that consults anything else — say a
    /// caller-supplied tuning rule — answers false.
    open spec fn deterministic_s(&self) -> bool {
        arbitrary()
    }

    /// The frame the processor returns, as a function of its state
    /// and the frame; meaningful where
    /// [`deterministic_s`](FrameProcessor::deterministic_s) holds.
    open spec fn model_s(&self, frame: Seq<T>) -> Seq<T> {
        arbitrary()
    }

    /// How one processed frame may change the processor's state.
    open spec fn steps_s(&self, frame: Seq<T>, next: Self) -> bool {
        arbitrary()
    }

    fn process_frame(&mut self, frame: &[T]) -> (r: Vec<T>)
        requires
            old(self).accepts_s(frame@.len() as int),
        ensures
            r@.len() == frame@.len(),
            old(self).deterministic_s() ==> r@ == old(self).model_s(frame@),
            old(self).steps_s(frame@, *final(self)),
            forall|m: int| final(self).accepts_s(m) == old(self).accepts_s(m),
    ;
}

/// The output queue that overlap-adding the frames of `outs`, each
/// advancing by `least` samples, builds up from nothing.
pub open spec fn ola_run_s<T: Float>(outs: Seq<Seq<T>>, least: int) -> Seq<T>
    decreases outs.len(),
{
    if outs.len() == 0 {
        Seq::<T>::empty()
    } else {
        ola_write_s(ola_run_s(outs.drop_last(), least), outs.last(), least)
    }
}

/// `n` zero samples, as the flush pads the stream with.
pub open spec fn zero_padding_s<T: Float>(n: nat) -> Seq<T> {
    Seq::new(n, |j: int| T::zero_s())
}

/// The suffix of `s` from position `n` on, or nothing when `n` lies
/// past the end.
pub open spec fn suffix_s<T>(s: Seq<T>, n: int) -> Seq<T> {
    if n <= s.len() {
        s.skip(n)
    } else {
        Seq::<T>::empty()
    }
}

/// One run of a frame processor over the windows of `stream`: starting
/// in state `p0` at frame number `start`, the processor returns the
/// frames of `outs` in order — each pinned by its model where the
/// processor is deterministic — steps by its transition relation, and
/// ends in state `pend`. Frame number `k` reads
/// `stream[k*slide .. k*slide + window]`.
pub open spec fn runs_s<T: Float, P: FrameProcessor<T>>(
    p0: P,
    stream: Seq<T>,
    window: int,
    slide: int,
    start: int,
    outs: Seq<Seq<T>>,
    pend: P,
) -> bool
    decreases outs.len(),
{
    if outs.len() == 0 {
        pend == p0
    } else {
        let frame = stream.subrange(slide * start, slide * start + window);
        &&& outs[0].len() == window
        &&& (p0.deterministic_s() ==> outs[0] == p0.model_s(frame))
        &&& exists|p1: P|
            #[trigger] p0.steps_s(frame, p1) && runs_s(
                p1,
                stream,
                window,
                slide,
                start + 1,
                outs.skip(1),
                pend,
            )
    }
}

/// What overlap-adding `other` onto the tail of `buffer` yields:
/// `buffer` is padded with zeros up to the overlap length if shorter,
/// the first `other.len() - least` samples of `other` are summed into
/// the last that many samples of the padded buffer, and the remaining
/// `least` samples of `other` are appended.
pub open spec fn ola_write_s<T: Float>(buffer: Seq<T>, other: Seq<T>, least: int) -> Seq<T> {
    let ov = other.len() - least;
    let padded = if buffer.len() >= ov {
        buffer
    } else {
        buffer + Seq::new((ov - buffer.len()) as nat, |j: int| T::zero_s())
    };
    let base = padded.len() as int;
    padded.take(base - ov) + Seq::new(ov as nat, |j: int| padded[base - ov + j].add_s(other[j]))
        + other.skip(ov)
}

/// A run extends by one frame: if the processor can step once more on
/// the next window, the frame it returns joins the run.
proof fn lemma_runs_push<T: Float, P: FrameProcessor<T>>(
    p0: P,
    stream: Seq<T>,
    window: int,
    slide: int,
    start: int,
    outs: Seq<Seq<T>>,
    pcur: P,
    pnext: P,
    fresh: Seq<T>,
)
    requires
        runs_s(p0, stream, window, slide, start, outs, pcur),
        fresh.len() == window,
        pcur.steps_s(
            stream.subrange(
                slide * (start + outs.len()),
                slide * (start + outs.len()) + window,
            ),
            pnext,
        ),
        pcur.deterministic_s() ==> fresh == pcur.model_s(
            stream.subrange(
                slide * (start + outs.len()),
                slide * (start + outs.len()) + window,
            ),
        ),
    ensures
        runs_s(p0, stream, window, slide, start, outs.push(fresh), pnext),
    decreases outs.len(),
{
    if outs.len() == 0 {
        assert(outs.push(fresh)[0] == fresh);
        assert(outs.push(fresh).skip(1) =~= Seq::<Seq<T>>::empty());
        assert(runs_s(pnext, stream, window, slide, start + 1, outs.push(fresh).skip(1), pnext));
        assert(p0.steps_s(stream.subrange(slide * start, slide * start + window), pnext));
    } else {
        let frame0 = stream.subrange(slide * start, slide * start + window);
        let p1 = choose|p1: P|
            #[trigger] p0.steps_s(frame0, p1) && runs_s(
                p1,
                stream,
                window,
                slide,
                start + 1,
                outs.skip(1),
                pcur,
            );
        assert((start + 1) + outs.skip(1).len() == start + outs.len());
        lemma_runs_push(p1, stream, window, slide, start + 1, outs.skip(1), pcur, pnext, fresh);
        assert(outs.skip(1).push(fresh) =~= outs.push(fresh).skip(1));
        assert(outs.push(fresh)[0] == outs[0]);
        assert(p0.steps_s(frame0, p1) && runs_s(
            p1,
            stream,
            window,
            slide,
            start + 1,
            outs.push(fresh).skip(1),
            pnext,
        ));
    }
}

/// One more frame lands on the end of a run's output queue.
proof fn lemma_ola_run_push<T: Float>(outs: Seq<Seq<T>>, o: Seq<T>, least: int)
    ensures
        ola_run_s(outs.push(o), least) == ola_write_s(ola_run_s(outs, least), o, least),
{
    assert(outs.push(o).drop_last() =~= outs);
    assert(outs.push(o).last() == o);
}

/// Overlap-adding onto a queue commutes with having dropped an
/// already-released prefix, as long as the prefix stays clear of the
/// overlap tail.
proof fn lemma_ola_write_skip<T: Float>(s0: Seq<T>, o: Seq<T>, least: int, d: int)
    requires
        0 <= least <= o.len(),
        0 <= d,
        d + (o.len() - least) <= s0.len(),
    ensures
        ola_write_s(s0.skip(d), o, least) == ola_write_s(s0, o, least).skip(d),
{
    assert(ola_write_s(s0.skip(d), o, least) =~= ola_write_s(s0, o, least).skip(d));
}

/// Sums the head of `other` into the tail of `buffer` and appends the
/// rest, so that frames written at successive offsets of `least_size`
/// samples overlap-add into a continuous stream.
pub fn buffer_overlapping_write<T: Float>(least_size: usize, buffer: &mut Vec<T>, other: &[T])
    requires
        least_size <= other@.len(),
        old(buffer)@.len() + other@.len() <= usize::MAX,
    ensures
        final(buffer)@ == ola_write_s(old(buffer)@, other@, least_size as int),
        final(buffer)@.len() == (if old(buffer)@.len() >= other@.len() - least_size {
            old(buffer)@.len() as int
        } else {
            other@.len() - least_size
        }) + least_size,
{
    let ov: usize = other.len() - least_size;
    while buffer.len() < ov
        invariant
            ov <= other@.len(),
            old(buffer)@.len() <= buffer@.len(),
            buffer@.len() <= if old(buffer)@.len() >= ov {
                old(buffer)@.len() as int
            } else {
                ov as int
            },
            buffer@ == if old(buffer)@.len() >= buffer@.len() {
                old(buffer)@
            } else {
                old(buffer)@ + Seq::new((buffer@.len() - old(buffer)@.len()) as nat, |j: int| T::zero_s())
            },
        decreases ov - buffer@.len(),
    {
        buffer.push(T::zero_f());
        proof {
            assert(buffer@ =~= old(buffer)@ + Seq::new(
                (buffer@.len() - old(buffer)@.len()) as nat,
                |j: int| T::zero_s(),
            ));
        }
    }
    let ghost padded = buffer@;
    let base: usize = buffer.len();
    let mut i: usize = 0;
    while i < ov
        invariant
            i <= ov,
            ov <= other@.len(),
            base == buffer@.len(),
            ov <= base,
            padded.len() == base,
            forall|j: int| 0 <= j < base - ov + i ==> buffer@[j] == if j < base - ov {
                padded[j]
            } else {
                padded[j].add_s(other@[j - (base - ov)])
            },
            forall|j: int| base - ov + i <= j < base ==> buffer@[j] == padded[j],
        decreases ov - i,
    {
        let pos: usize = base - ov + i;
        let x = buffer[pos].add_f(other[i]);
        buffer.set(pos, x);
        i = i + 1;
    }
    let mut k: usize = ov;
    while k < other.len()
        invariant
            ov <= k <= other@.len(),
            ov <= base,
            padded.len() == base,
            buffer@.len() == base + k - ov,
            forall|j: int| 0 <= j < base - ov ==> buffer@[j] == padded[j],
            forall|j: int| base - ov <= j < base ==> buffer@[j] == padded[j].add_s(other@[j - (base - ov)]),
            forall|j: int| base <= j < buffer@.len() ==> buffer@[j] == other@[j - base + ov],
        decreases other@.len() - k,
    {
        buffer.push(other[k]);
        k = k + 1;
    }
    proof {
        assert(buffer@ =~= ola_write_s(old(buffer)@, other@, least_size as int));
    }
}

/// Converts a whole buffer at once: cuts it into windows advancing by
/// `slide_size` samples (the last ones zero-padded to full length),
/// passes each through the processor, and overlap-adds the results.
pub fn transform<T: Float, P: FrameProcessor<T>>(
    window_size: usize,
    slide_size: usize,
    process: &mut P,
    buffer: &[T],
) -> (r: Vec<T>)
    requires
        1 <= slide_size <= window_size,
        buffer@.len() + 2 * window_size <= usize::MAX,
        old(process).accepts_s(window_size as int),
    ensures
        buffer@.len() == 0 ==> r@.len() == 0,
        buffer@.len() > 0 ==> r@.len() == window_size + slide_size * (((buffer@.len() - 1) as int)
            / (slide_size as int)),
        exists|outs: Seq<Seq<T>>, pend: P|
            #[trigger] runs_s(
                *old(process),
                buffer@ + zero_padding_s::<T>(window_size as nat),
                window_size as int,
                slide_size as int,
                0,
                outs,
                pend,
            ) && *final(process) == pend && outs.len() == (if buffer@.len() == 0 {
                0int
            } else {
                ((buffer@.len() - 1) as int) / (slide_size as int) + 1
            }) && r@ == ola_run_s(outs, slide_size as int),
{
    if buffer.len() == 0 {
        let empty_out: Vec<T> = Vec::new();
        proof {
            assert(runs_s(
                *old(process),
                buffer@ + zero_padding_s::<T>(window_size as nat),
                window_size as int,
                slide_size as int,
                0,
                Seq::<Seq<T>>::empty(),
                *process,
            ));
            assert(empty_out@ =~= ola_run_s(Seq::<Seq<T>>::empty(), slide_size as int));
        }
        return empty_out;
    }

    let frames: usize = (buffer.len() - 1) / slide_size + 1;
    let mut output: Vec<T> = Vec::new();
    let mut i: usize = 0;
    let ghost mut outs: Seq<Seq<T>> = Seq::<Seq<T>>::empty();
    let ghost padded = buffer@ + zero_padding_s::<T>(window_size as nat);
    proof {
        assert((((buffer@.len() - 1) as int) / (slide_size as int)) * (slide_size as int) <= (
        buffer@.len() - 1) as int) by (nonlinear_arith)
            requires
                slide_size >= 1,
                buffer@.len() >= 1,
        ;
    }
    while i < frames
        invariant
            1 <= slide_size <= window_size,
            buffer@.len() + 2 * window_size <= usize::MAX,
            buffer@.len() >= 1,
            frames == ((buffer@.len() - 1) as int) / (slide_size as int) + 1,
            (frames - 1) * slide_size <= buffer@.len() - 1,
            i <= frames,
            forall|m: int| process.accepts_s(m) == old(process).accepts_s(m),
            old(process).accepts_s(window_size as int),
            output@.len() == if i == 0 {
                0int
            } else {
                window_size + slide_size * (i - 1)
            },
            padded == buffer@ + zero_padding_s::<T>(window_size as nat),
            outs.len() == i,
            runs_s(
                *old(process),
                padded,
                window_size as int,
                slide_size as int,
                0,
                outs,
                *process,
            ),
            output@ == ola_run_s(outs, slide_size as int),
        decreases frames - i,
    {
        proof {
            assert((i as int) * (slide_size as int) <= (frames - 1) * (slide_size as int)) by (nonlinear_arith)
                requires
                    i <= frames - 1,
                    slide_size >= 1,
            ;
        }
        let start: usize = i * slide_size;
        let mut frame: Vec<T> = Vec::new();
        let mut k: usize = start;
        while k < start + window_size
            invariant
                start + window_size <= usize::MAX,
                start <= k <= start + window_size,
                buffer@.len() + 2 * window_size <= usize::MAX,
                frame@.len() == k - start,
                forall|j: int|
                    0 <= j < k - start ==> frame@[j] == if start + j < buffer@.len() {
                        buffer@[start + j]
                    } else {
                        T::zero_s()
                    },
            decreases start + window_size - k,
        {
            if k < buffer.len() {
                frame.push(buffer[k]);
            } else {
                frame.push(T::zero_f());
            }
            k = k + 1;
        }
        let ghost p_before = *process;
        proof {
            assert(start + window_size <= padded.len());
            assert(frame@ =~= padded.subrange(start as int, start as int + window_size));
        }
        let processed = process.process_frame(frame.as_slice());
        let ghost out_before = output@.len() as int;
        proof {
            assert((i as int - 1) * (slide_size as int) <= (frames as int - 1) * (slide_size as int))
                by (nonlinear_arith)
                requires
                    i <= frames,
                    slide_size >= 1,
            ;
            assert(i >= 1 ==> out_before == window_size + (slide_size as int) * (i - 1));
            assert(out_before + processed@.len() <= usize::MAX);
        }
        buffer_overlapping_write(slide_size, &mut output, processed.as_slice());
        proof {
            assert(output@.len() == (if out_before >= window_size - slide_size {
                out_before
            } else {
                window_size - slide_size
            }) + slide_size);
            assert((slide_size as int) * ((i + 1) - 1) == (slide_size as int) * (i as int));
            assert(i >= 1 ==> window_size + (slide_size as int) * (i - 1) >= window_size
                - slide_size);
            assert(i >= 1 ==> (slide_size as int) * (i as int) == (slide_size as int) * (i - 1)
                + slide_size) by (nonlinear_arith);
            lemma_ola_run_push(outs, processed@, slide_size as int);
            assert((slide_size as int) * (0 + outs.len()) == start as int) by (nonlinear_arith)
                requires
                    outs.len() == i as int,
                    start as int == (i as int) * (slide_size as int),
            ;
            lemma_runs_push(
                *old(process),
                padded,
                window_size as int,
                slide_size as int,
                0,
                outs,
                p_before,
                *process,
                processed@,
            );
            outs = outs.push(processed@);
        }
        i = i + 1;
    }
    output
}

/// A streaming framing engine.
///
/// Samples go in through [`input_slice`](Transformer::input_slice); each
/// time [`process`](Transformer::process) runs, every complete window is
/// handed to the frame processor and the result is overlap-added into an
/// output queue, advancing by the slide size; processed samples come
/// back out through [`output_slice_exact`](Transformer::output_slice_exact)
/// and, at the end of the stream, [`finish`](Transformer::finish).
///
/// The engine prefixes the stream with one overlap of zeros and trims
/// that prefix, and the zero padding of the flush, back off on output,
/// so that a whole stream of `n` samples comes back as exactly `n`
/// samples: every sample is covered by a full complement of windows,
/// and no sample is released while a later frame could still add to it.
///
/// The contracts expose the whole story: the stream fed so far
/// ([`stream_s`](Transformer::stream_s)), the frames the processor
/// returned ([`outputs_s`](Transformer::outputs_s)) — pinned against
/// the processor's own model by [`runs_s`] — and the queues as
/// functions of the two ([`sync_s`](Transformer::sync_s)).
pub struct Transformer<T: Float, P: FrameProcessor<T>> {
    window_size: usize,
    slide_size: usize,
    input_overlap_size: usize,
    input_buffer: Vec<T>,
    output_buffer: Vec<T>,
    received: usize,
    released: usize,
    to_skip: usize,
    frames: Ghost<int>,
    fed: Ghost<Seq<T>>,
    outputs: Ghost<Seq<Seq<T>>>,
    processor: P,
}

impl<T: Float, P: FrameProcessor<T>> Transformer<T, P> {
    /// The frame length.
    pub closed spec fn window_size_s(&self) -> usize {
        self.window_size
    }

    /// How many samples each frame advances by.
    pub closed spec fn slide_size_s(&self) -> usize {
        self.slide_size
    }

    /// How many samples have been fed in.
    pub closed spec fn received_s(&self) -> usize {
        self.received
    }

    /// How many samples have been handed back out.
    pub closed spec fn released_s(&self) -> usize {
        self.released
    }

    /// How many samples are waiting in the input queue.
    pub closed spec fn backlog_s(&self) -> int {
        self.input_buffer@.len() as int
    }

    /// Everything that has entered the input queue, including the zero
    /// prefix and any flush padding.
    pub closed spec fn intake_s(&self) -> int {
        self.input_buffer@.len() + (self.slide_size as int) * self.frames@
    }

    /// What has left the output queue, including the trimmed zero prefix.
    pub closed spec fn emitted_s(&self) -> int {
        (self.input_overlap_size - self.to_skip) + self.released
    }

    /// Whether a request for `n` samples can be served: the output
    /// queue must hold them with a whole overlap in reserve behind
    /// them, and no more samples may leave than were ever fed.
    pub closed spec fn ready_s(&self, n: int) -> bool {
        &&& self.output_buffer@.len() >= self.input_overlap_size + self.to_skip + n
        &&& n <= self.received - self.released
    }

    /// The fully summed samples waiting to be handed out, oldest first.
    pub closed spec fn pending_s(&self) -> Seq<T> {
        suffix_s(self.output_buffer@, self.to_skip as int)
    }

    /// Every sample that has entered the input queue, oldest first:
    /// the zero prefix, then the fed samples, then any flush padding.
    pub closed spec fn stream_s(&self) -> Seq<T> {
        self.fed@
    }

    /// What the frame processor returned, frame by frame, in order.
    pub closed spec fn outputs_s(&self) -> Seq<Seq<T>> {
        self.outputs@
    }

    /// The frame processor's current state.
    pub closed spec fn processor_s(&self) -> P {
        self.processor
    }

    /// The unconsumed suffix of the stream still in the input queue.
    pub closed spec fn backlog_view_s(&self) -> Seq<T> {
        self.input_buffer@
    }

    /// How the queues relate to the histories: the input queue holds
    /// exactly the stream minus one slide per processed frame, every
    /// processed frame has the window length, and the pending samples
    /// are the overlap-add of the processed frames minus what has left
    /// — the zero prefix and the released samples.
    pub open spec fn sync_s(&self) -> bool {
        &&& self.backlog_view_s() == self.stream_s().skip(
            (self.slide_size_s() as int) * (self.outputs_s().len() as int),
        )
        &&& (forall|k: int|
            0 <= k < self.outputs_s().len() ==> (#[trigger] self.outputs_s()[k]).len()
                == self.window_size_s())
        &&& self.pending_s() == suffix_s(
            ola_run_s(self.outputs_s(), self.slide_size_s() as int),
            self.window_size_s() - self.slide_size_s() + self.released_s(),
        )
    }

    /// The engine's internal consistency, independent of how much
    /// padding the flush has added.
    pub closed spec fn wf_core(&self) -> bool {
        &&& 1 <= self.slide_size <= self.window_size
        &&& self.window_size <= usize::MAX / 4
        &&& self.input_overlap_size == self.window_size - self.slide_size
        &&& self.to_skip <= self.input_overlap_size
        &&& self.released <= self.received
        &&& self.frames@ >= 0
        &&& self.processor.accepts_s(self.window_size as int)
        &&& self.emitted_s() <= (self.slide_size as int) * self.frames@
        &&& self.output_buffer@.len() == if self.frames@ == 0 {
            0int
        } else {
            (self.slide_size as int) * self.frames@ + self.input_overlap_size - self.emitted_s()
        }
        &&& self.intake_s() <= usize::MAX / 2 + self.window_size
        &&& self.fed@.len() == self.intake_s()
        &&& self.input_buffer@ == self.fed@.skip((self.slide_size as int) * self.frames@)
        &&& self.outputs@.len() == self.frames@
        &&& (forall|k: int|
            0 <= k < self.outputs@.len() ==> (#[trigger] self.outputs@[k]).len()
                == self.window_size)
        &&& ola_run_s(self.outputs@, self.slide_size as int).len() == if self.frames@ == 0 {
            0int
        } else {
            (self.slide_size as int) * self.frames@ + self.input_overlap_size
        }
        &&& self.output_buffer@ == ola_run_s(self.outputs@, self.slide_size as int).skip(
            self.emitted_s(),
        )
    }

    /// The queue histories follow from internal consistency.
    proof fn lemma_sync(&self)
        requires
            self.wf_core(),
        ensures
            self.sync_s(),
    {
        let run = ola_run_s(self.outputs@, self.slide_size as int);
        let cut = self.window_size - self.slide_size + self.released as int;
        if self.frames@ == 0 {
            assert(self.pending_s() =~= suffix_s(run, cut));
        } else {
            assert(cut <= run.len());
            assert(self.pending_s() =~= run.skip(cut));
        }
    }

    /// Well-formedness between public calls: internally consistent, and
    /// the input queue holds exactly the zero prefix plus what was fed.
    pub open spec fn wf(&self) -> bool {
        &&& self.wf_core()
        &&& self.intake_s() == self.window_size_s() - self.slide_size_s() + self.received_s()
        &&& self.intake_s() <= usize::MAX / 2
    }

    pub fn new(window_size: usize, slide_size: usize, processor: P) -> (r: Self)
        requires
            1 <= slide_size <= window_size,
            window_size <= usize::MAX / 4,
            processor.accepts_s(window_size as int),
        ensures
            r.wf(),
            r.window_size_s() == window_size,
            r.slide_size_s() == slide_size,
            r.received_s() == 0,
            r.released_s() == 0,
            r.stream_s() == Seq::new((window_size - slide_size) as nat, |j: int| T::zero_s()),
            r.outputs_s() == Seq::<Seq<T>>::empty(),
            r.processor_s() == processor,
            r.pending_s() == Seq::<T>::empty(),
            r.sync_s(),
    {
        let input_overlap_size: usize = window_size - slide_size;
        let mut input_buffer: Vec<T> = Vec::new();
        let mut i: usize = 0;
        while i < input_overlap_size
            invariant
                i <= input_overlap_size,
                input_buffer@.len() == i,
                forall|j: int| 0 <= j < i ==> input_buffer@[j] == T::zero_s(),
            decreases input_overlap_size - i,
        {
            input_buffer.push(T::zero_f());
            i = i + 1;
        }
        let r = Transformer {
            window_size,
            slide_size,
            input_overlap_size,
            input_buffer,
            output_buffer: Vec::new(),
            received: 0,
            released: 0,
            to_skip: input_overlap_size,
            frames: Ghost(0),
            fed: Ghost(Seq::new((window_size - slide_size) as nat, |j: int| T::zero_s())),
            outputs: Ghost(Seq::<Seq<T>>::empty()),
            processor,
        };
        proof {
            assert(r.input_buffer@ =~= r.fed@.skip(0));
            assert(ola_run_s(r.outputs@, slide_size as int) =~= Seq::<T>::empty());
            assert(r.output_buffer@ =~= ola_run_s(r.outputs@, slide_size as int).skip(0));
            assert(r.pending_s() == Seq::<T>::empty());
            assert(r.frames@ == 0);
            assert(r.fed@.len() == window_size - slide_size);
            assert(r.input_buffer@.len() == window_size - slide_size);
            assert(r.fed@.len() == r.intake_s());
            assert(r.input_buffer@ == r.fed@.skip((r.slide_size as int) * r.frames@));
            assert(r.outputs@.len() == r.frames@);
            assert(ola_run_s(r.outputs@, r.slide_size as int).len() == 0);
            assert(r.output_buffer@ == ola_run_s(r.outputs@, r.slide_size as int).skip(
                r.emitted_s(),
            ));
            r.lemma_sync();
        }
        r
    }

    /// Appends samples to the input queue.
    pub fn input_slice(&mut self, slice: &[T])
        requires
            old(self).wf(),
            slice@.len() <= usize::MAX / 2 - old(self).intake_s(),
        ensures
            final(self).wf(),
            final(self).window_size_s() == old(self).window_size_s(),
            final(self).slide_size_s() == old(self).slide_size_s(),
            final(self).received_s() == old(self).received_s() + slice@.len(),
            final(self).released_s() == old(self).released_s(),
            final(self).stream_s() == old(self).stream_s() + slice@,
            final(self).outputs_s() == old(self).outputs_s(),
            final(self).processor_s() == old(self).processor_s(),
            final(self).pending_s() == old(self).pending_s(),
            final(self).sync_s(),
    {
        let mut i: usize = 0;
        while i < slice.len()
            invariant
                i <= slice@.len(),
                self.input_buffer@.len() == old(self).input_buffer@.len() + i,
                old(self).input_buffer@.len() + slice@.len() <= usize::MAX,
                self.window_size == old(self).window_size,
                self.slide_size == old(self).slide_size,
                self.input_overlap_size == old(self).input_overlap_size,
                self.output_buffer == old(self).output_buffer,
                self.received == old(self).received,
                self.released == old(self).released,
                self.to_skip == old(self).to_skip,
                self.frames == old(self).frames,
                self.fed == old(self).fed,
                self.outputs == old(self).outputs,
                self.processor == old(self).processor,
                forall|j: int| 0 <= j < i ==> self.input_buffer@[old(self).input_buffer@.len() + j] == slice@[j],
                forall|j: int|
                    0 <= j < old(self).input_buffer@.len() ==> self.input_buffer@[j] == old(
                        self,
                    ).input_buffer@[j],
            decreases slice@.len() - i,
        {
            self.input_buffer.push(slice[i]);
            i = i + 1;
        }
        self.received = self.received + slice.len();
        proof {
            assert(self.input_buffer@ =~= old(self).input_buffer@ + slice@);
            self.fed@ = self.fed@ + slice@;
            assert(self.input_buffer@ =~= self.fed@.skip(
                (self.slide_size as int) * self.frames@,
            ));
            assert(self.pending_s() =~= old(self).pending_s());
            self.lemma_sync();
        }
    }

    /// Runs the frame processor over every complete window in the input
    /// queue, overlap-adding the results into the output queue.
    pub fn process(&mut self)
        requires
            old(self).wf_core(),
        ensures
            final(self).wf_core(),
            final(self).window_size_s() == old(self).window_size_s(),
            final(self).slide_size_s() == old(self).slide_size_s(),
            final(self).received_s() == old(self).received_s(),
            final(self).released_s() == old(self).released_s(),
            final(self).emitted_s() == old(self).emitted_s(),
            final(self).intake_s() == old(self).intake_s(),
            final(self).wf() == old(self).wf(),
            final(self).backlog_s() < final(self).window_size_s(),
            final(self).stream_s() == old(self).stream_s(),
            old(self).outputs_s().len() <= final(self).outputs_s().len(),
            final(self).outputs_s().take(old(self).outputs_s().len() as int) == old(
                self,
            ).outputs_s(),
            runs_s(
                old(self).processor_s(),
                old(self).stream_s(),
                old(self).window_size_s() as int,
                old(self).slide_size_s() as int,
                old(self).outputs_s().len() as int,
                final(self).outputs_s().skip(old(self).outputs_s().len() as int),
                final(self).processor_s(),
            ),
            final(self).sync_s(),
    {
        let window_size: usize = self.window_size;
        let slide_size: usize = self.slide_size;
        let ghost n0 = old(self).outputs@.len() as int;
        proof {
            assert(self.outputs@.skip(n0) =~= Seq::<Seq<T>>::empty());
            assert(self.outputs@.take(n0) =~= old(self).outputs@);
        }
        while self.input_buffer.len() >= window_size
            invariant
                self.wf_core(),
                window_size == self.window_size,
                slide_size == self.slide_size,
                self.window_size == old(self).window_size,
                self.slide_size == old(self).slide_size,
                self.input_overlap_size == old(self).input_overlap_size,
                self.received == old(self).received,
                self.released == old(self).released,
                self.to_skip == old(self).to_skip,
                self.intake_s() == old(self).intake_s(),
                self.fed == old(self).fed,
                n0 == old(self).outputs@.len() as int,
                n0 <= self.outputs@.len(),
                self.outputs@.take(n0) == old(self).outputs@,
                runs_s(
                    old(self).processor,
                    old(self).fed@,
                    window_size as int,
                    slide_size as int,
                    n0,
                    self.outputs@.skip(n0),
                    self.processor,
                ),
            decreases self.input_buffer@.len(),
        {
            let mut frame: Vec<T> = Vec::new();
            let mut k: usize = 0;
            while k < window_size
                invariant
                    k <= window_size,
                    window_size <= self.input_buffer@.len(),
                    frame@.len() == k,
                    forall|j: int| 0 <= j < k ==> frame@[j] == self.input_buffer@[j],
                decreases window_size - k,
            {
                frame.push(self.input_buffer[k]);
                k = k + 1;
            }
            let ghost f0 = self.frames@;
            let ghost s = slide_size as int;
            let ghost p_before = self.processor;
            proof {
                assert(s * f0 + window_size <= self.fed@.len());
                assert(frame@ =~= self.fed@.subrange(s * f0, s * f0 + window_size));
            }
            let processed = self.processor.process_frame(frame.as_slice());
            let ghost out0 = self.output_buffer@.len() as int;
            let ghost em = self.emitted_s();
            let ghost run0 = ola_run_s(self.outputs@, s);
            proof {
                assert(processed@.len() == window_size);
                if f0 != 0 {
                    assert(out0 == s * f0 + self.input_overlap_size - em);
                }
                assert(self.output_buffer@.len() + processed@.len() <= usize::MAX) by {
                    assert((self.slide_size as int) * self.frames@ <= self.intake_s());
                }
            }
            buffer_overlapping_write(slide_size, &mut self.output_buffer, processed.as_slice());
            vec_drop_front(&mut self.input_buffer, slide_size);
            proof {
                let outs0 = self.outputs@;
                let suffix0 = self.outputs@.skip(n0);
                self.frames@ = f0 + 1;
                self.outputs@ = outs0.push(processed@);
                assert(s * (f0 + 1) == s * f0 + s) by (nonlinear_arith);
                lemma_ola_run_push(outs0, processed@, s);
                let run1 = ola_run_s(self.outputs@, s);
                assert(run1 == ola_write_s(run0, processed@, s));
                if f0 == 0 {
                    assert(em == 0);
                    assert(run0.skip(0) =~= run0);
                    assert(run1.skip(0) =~= run1);
                    assert(self.output_buffer@.len() == self.input_overlap_size + slide_size);
                } else {
                    assert(em <= s * f0);
                    assert(out0 >= self.input_overlap_size);
                    lemma_ola_write_skip(run0, processed@, s, em);
                    assert(self.output_buffer@.len() == out0 + slide_size);
                }
                assert(self.output_buffer@ == run1.skip(self.emitted_s()));
                assert(run1.len() == s * (f0 + 1) + self.input_overlap_size);
                assert(self.input_buffer@ =~= self.fed@.skip(s * (f0 + 1)));
                assert(self.outputs@.take(n0) =~= old(self).outputs@);
                assert(self.outputs@.skip(n0) =~= suffix0.push(processed@));
                assert((n0 + suffix0.len()) == f0);
                lemma_runs_push(
                    old(self).processor,
                    old(self).fed@,
                    window_size as int,
                    slide_size as int,
                    n0,
                    suffix0,
                    p_before,
                    self.processor,
                    processed@,
                );
            }
        }
        proof {
            self.lemma_sync();
        }
    }

    /// Copies the oldest `out.len()` fully summed samples into `out` and
    /// consumes them. Fails, changing nothing, when the output queue does
    /// not yet hold them with a whole overlap in reserve behind them, or
    /// when more samples than were ever fed would leave the engine.
    pub fn output_slice_exact(&mut self, out: &mut Vec<T>) -> (r: bool)
        requires
            old(self).wf(),
        ensures
            final(self).wf(),
            final(self).window_size_s() == old(self).window_size_s(),
            final(self).slide_size_s() == old(self).slide_size_s(),
            final(self).received_s() == old(self).received_s(),
            final(out)@.len() == old(out)@.len(),
            r == old(self).ready_s(old(out)@.len() as int),
            r ==> final(self).released_s() == old(self).released_s() + old(out)@.len(),
            r ==> final(out)@ == old(self).pending_s().take(old(out)@.len() as int),
            !r ==> final(self).released_s() == old(self).released_s(),
            !r ==> final(out)@ == old(out)@,
            !r ==> *final(self) == *old(self),
            final(self).stream_s() == old(self).stream_s(),
            final(self).outputs_s() == old(self).outputs_s(),
            final(self).processor_s() == old(self).processor_s(),
            final(self).sync_s(),
    {
        let n: usize = out.len();
        let ov: usize = self.input_overlap_size;
        if !(self.output_buffer.len() >= ov + self.to_skip
            && n <= self.output_buffer.len() - ov - self.to_skip
            && n <= self.received - self.released) {
            proof {
                self.lemma_sync();
            }
            return false;
        }

        let skip: usize = self.to_skip;
        let mut i: usize = 0;
        while i < n
            invariant
                i <= n,
                n == out@.len(),
                skip + n <= self.output_buffer@.len(),
                self.output_buffer@.len() <= usize::MAX,
                *self == *old(self),
                skip == self.to_skip,
                forall|j: int| 0 <= j < i ==> out@[j] == self.output_buffer@[skip + j],
                forall|j: int| i <= j < n ==> out@[j] == old(out)@[j],
            decreases n - i,
        {
            let x = self.output_buffer[skip + i];
            out.set(i, x);
            i = i + 1;
        }
        proof {
            assert(out@ =~= old(self).pending_s().take(n as int));
        }
        vec_drop_front(&mut self.output_buffer, skip + n);
        self.to_skip = 0;
        self.released = self.released + n;
        proof {
            let run = ola_run_s(self.outputs@, self.slide_size as int);
            if self.frames@ == 0 {
                assert(self.output_buffer@ =~= run.skip(self.emitted_s()));
            } else {
                assert(old(self).emitted_s() + (skip + n) <= run.len());
                assert(self.output_buffer@ =~= run.skip(self.emitted_s()));
            }
            self.lemma_sync();
        }
        true
    }

    /// Flushes the stream: pads the input with zeros, processes the
    /// final frames, and hands back every fed sample that has not been
    /// released yet — so a stream of `n` samples comes back as exactly
    /// `n` samples overall.
    pub fn finish(self, vec: &mut Vec<T>)
        requires
            self.wf(),
            old(vec)@.len() + (self.received_s() - self.released_s()) <= usize::MAX,
        ensures
            final(vec)@.len() == old(vec)@.len() + (self.received_s() - self.released_s()),
            final(vec)@.take(old(vec)@.len() as int) == old(vec)@,
            exists|outs: Seq<Seq<T>>, pend: P|
                #[trigger] runs_s(
                    self.processor_s(),
                    self.stream_s() + zero_padding_s::<T>(self.window_size_s() as nat),
                    self.window_size_s() as int,
                    self.slide_size_s() as int,
                    self.outputs_s().len() as int,
                    outs,
                    pend,
                ) && final(vec)@ == old(vec)@ + ola_run_s(
                    self.outputs_s() + outs,
                    self.slide_size_s() as int,
                ).subrange(
                    self.window_size_s() - self.slide_size_s() + self.released_s(),
                    self.window_size_s() - self.slide_size_s() + self.received_s(),
                ),
    {
        let mut this = self;
        let window_size: usize = this.window_size;
        let mut i: usize = 0;
        while i < window_size
            invariant
                i <= window_size,
                window_size == this.window_size,
                this.wf_core(),
                this.input_buffer@.len() == self.input_buffer@.len() + i,
                this.window_size == self.window_size,
                this.slide_size == self.slide_size,
                this.input_overlap_size == self.input_overlap_size,
                this.received == self.received,
                this.released == self.released,
                this.to_skip == self.to_skip,
                this.frames == self.frames,
                this.output_buffer == self.output_buffer,
                this.outputs == self.outputs,
                this.processor == self.processor,
                this.fed@ == self.fed@ + Seq::new(i as nat, |j: int| T::zero_s()),
                self.wf(),
            decreases window_size - i,
        {
            this.input_buffer.push(T::zero_f());
            i = i + 1;
            proof {
                this.fed@ = this.fed@ + seq![T::zero_s()];
                assert(this.fed@ =~= self.fed@ + Seq::new(i as nat, |j: int| T::zero_s()));
                assert(this.intake_s() == self.intake_s() + i);
                assert(this.intake_s() <= usize::MAX / 2 + this.window_size);
                assert(this.input_buffer@ =~= this.fed@.skip(
                    (this.slide_size as int) * this.frames@,
                ));
            }
        }
        let ghost padded_stream = this.fed@;
        let ghost pre_flush = this;
        this.process();
        proof {
            assert(this.intake_s() == self.intake_s() + this.window_size);
            assert((this.slide_size as int) * this.frames@ == this.intake_s() - this.backlog_s());
            assert((this.slide_size as int) * this.frames@ >= this.input_overlap_size
                + this.received + 1);
            assert(this.frames@ > 0) by (nonlinear_arith)
                requires
                    (this.slide_size as int) * this.frames@ >= this.input_overlap_size
                        + this.received + 1,
                    this.frames@ >= 0,
                    this.slide_size >= 1,
            ;
            assert(this.output_buffer@.len() >= this.to_skip + (this.received - this.released));
        }
        let rem: usize = this.received - this.released;
        let skip: usize = this.to_skip;
        let ghost run_full = ola_run_s(this.outputs@, this.slide_size as int);
        let ghost base = this.window_size - this.slide_size + this.released as int;
        proof {
            assert(forall|j: int|
                0 <= j < this.output_buffer@.len() ==> this.output_buffer@[j] == run_full[
                    this.emitted_s() + j
                ]);
        }
        let mut k: usize = 0;
        while k < rem
            invariant
                k <= rem,
                skip == this.to_skip,
                skip + rem <= this.output_buffer@.len(),
                this.output_buffer@.len() <= usize::MAX,
                base == this.window_size - this.slide_size + this.released as int,
                this.emitted_s() + skip == base,
                run_full == ola_run_s(this.outputs@, this.slide_size as int),
                this.wf_core(),
                vec@.len() == old(vec)@.len() + k,
                old(vec)@.len() + rem <= usize::MAX,
                forall|j: int| 0 <= j < old(vec)@.len() ==> vec@[j] == old(vec)@[j],
                forall|j: int|
                    old(vec)@.len() <= j < vec@.len() ==> #[trigger] vec@[j] == run_full[base + (
                    j - old(vec)@.len())],
            decreases rem - k,
        {
            vec.push(this.output_buffer[skip + k]);
            k = k + 1;
        }
        proof {
            assert(vec@.take(old(vec)@.len() as int) =~= old(vec)@);
            let outs_new = this.outputs@.skip(pre_flush.outputs@.len() as int);
            let pend = this.processor;
            assert(padded_stream == self.fed@ + Seq::new(
                self.window_size as nat,
                |j: int| T::zero_s(),
            ));
            assert(self.stream_s() + zero_padding_s::<T>(self.window_size_s() as nat)
                =~= padded_stream);
            assert(runs_s(
                self.processor_s(),
                self.stream_s() + zero_padding_s::<T>(self.window_size_s() as nat),
                self.window_size_s() as int,
                self.slide_size_s() as int,
                self.outputs_s().len() as int,
                outs_new,
                pend,
            ));
            assert(self.outputs_s() + outs_new =~= this.outputs@);
            assert(base + rem <= run_full.len());
            assert(vec@ =~= old(vec)@ + ola_run_s(
                self.outputs_s() + outs_new,
                self.slide_size_s() as int,
            ).subrange(
                self.window_size_s() - self.slide_size_s() + self.released_s(),
                self.window_size_s() - self.slide_size_s() + self.received_s(),
            ));
        }
    }
}

/// Removes the first `k` elements of a vector, shifting the rest down.
pub(crate) fn vec_drop_front<T: Copy>(v: &mut Vec<T>, k: usize)
    requires
        k <= old(v)@.len(),
    ensures
        final(v)@ == old(v)@.skip(k as int),
{
    let len: usize = v.len();
    let mut i: usize = 0;
    while i < len - k
        invariant
            k <= len,
            len == v@.len(),
            i <= len - k,
            forall|j: int| 0 <= j < i ==> v@[j] == old(v)@[j + k],
            forall|j: int| i + k <= j < len ==> v@[j] == old(v)@[j],
        decreases len - k - i,
    {
        let x = v[i + k];
        v.set(i, x);
        i = i + 1;
    }
    v.truncate(len - k);
    proof {
        assert(v@ =~= old(v)@.skip(k as int));
    }
}

} // verus!
