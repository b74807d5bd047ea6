use vstd::prelude::*;

use crate::float::{arg_s, conj_s, from_polar_s, norm_s, Complex, Float};

verus! {

/// The phase a steady sinusoid at bin `i`'s center frequency advances
/// by over `slide` samples: `(tau * i / len) * slide`.
pub open spec fn advance_s<T: Float>(len: int, slide: usize, i: int) -> T {
    T::tau_s().mul_s(T::from_usize_s(i as usize)).div_s(T::from_usize_s(len as usize)).mul_s(
        T::from_usize_s(slide),
    )
}

/// A phase wrapped into `(-pi, pi]` by one remainder step.
pub open spec fn wrap_phase_s<T: Float>(phase: T) -> T {
    if T::zero_s().le_s(phase) {
        phase.add_s(T::pi_s()).rem_s(T::tau_s()).sub_s(T::pi_s())
    } else {
        phase.sub_s(T::pi_s()).rem_s(T::tau_s()).add_s(T::pi_s())
    }
}

/// The instantaneous-frequency estimate of bin `i`, in bins: the bin
/// index plus the deviation that the frame-to-frame phase change of
/// this bin implies.
pub open spec fn analyzed_pos_s<T: Float>(
    prev_in: Seq<T>,
    spectrum: Seq<Complex<T>>,
    slide: usize,
    i: int,
) -> T {
    let len = spectrum.len() as int;
    let diff = wrap_phase_s(
        arg_s(spectrum[i]).sub_s(prev_in[i]).sub_s(advance_s(len, slide, i)),
    );
    let deviation = diff.mul_s(
        T::from_usize_s(len as usize).div_s(T::from_usize_s(slide).mul_s(T::tau_s())),
    );
    T::from_usize_s(i as usize).add_s(deviation)
}

/// The source bin that target bin `i` reads from under pitch ratio
/// `pitch`: `round(i / pitch)`, converted to a count.
pub open spec fn shifted_bin_s<T: Float>(pitch: T, i: int) -> int {
    T::from_usize_s(i as usize).div_s(pitch).round_s().to_usize_s() as int
}

/// The magnitude of target bin `i` after frequency-domain resampling:
/// the source bin's magnitude, or zero when the source bin lies above
/// the Nyquist bin.
pub open spec fn shifted_norm_s<T: Float>(spectrum: Seq<Complex<T>>, pitch: T, i: int) -> T {
    let len = spectrum.len() as int;
    let sb = shifted_bin_s(pitch, i);
    if sb > len / 2 {
        T::zero_s()
    } else {
        norm_s(spectrum[sb])
    }
}

/// The scaled bin position of target bin `i` after resampling.
pub open spec fn shifted_pos_s<T: Float>(
    prev_in: Seq<T>,
    spectrum: Seq<Complex<T>>,
    pitch: T,
    slide: usize,
    i: int,
) -> T {
    let len = spectrum.len() as int;
    let sb = shifted_bin_s(pitch, i);
    if sb > len / 2 {
        T::zero_s()
    } else {
        analyzed_pos_s(prev_in, spectrum, slide, sb).mul_s(pitch)
    }
}

/// The resynthesized phase of target bin `i`: the previous output phase
/// advanced by the deviation of the resampled position from the bin
/// center plus the nominal per-frame advance, wrapped.
pub open spec fn synth_phase_s<T: Float>(
    prev_in: Seq<T>,
    prev_out: Seq<T>,
    spectrum: Seq<Complex<T>>,
    pitch: T,
    slide: usize,
    i: int,
) -> T {
    let len = spectrum.len() as int;
    let deviation = shifted_pos_s(prev_in, spectrum, pitch, slide, i).sub_s(
        T::from_usize_s(i as usize),
    );
    let diff = deviation.mul_s(
        T::tau_s().mul_s(T::from_usize_s(slide)).div_s(T::from_usize_s(len as usize)),
    ).add_s(advance_s(len, slide, i));
    wrap_phase_s(prev_out[i].add_s(diff))
}

/// The output value of target bin `i` in `0..=len/2`.
pub open spec fn synth_bin_s<T: Float>(
    prev_in: Seq<T>,
    prev_out: Seq<T>,
    spectrum: Seq<Complex<T>>,
    pitch: T,
    slide: usize,
    i: int,
) -> Complex<T> {
    from_polar_s(
        shifted_norm_s(spectrum, pitch, i),
        synth_phase_s(prev_in, prev_out, spectrum, pitch, slide, i),
    )
}

/// The whole spectrum after one pitch-shifter frame, before aliasing
/// removal: synthesized bins up to Nyquist, their conjugate mirror
/// above, and any bin the mirror cannot reach left as it was.
pub open spec fn vocoded_s<T: Float>(
    prev_in: Seq<T>,
    prev_out: Seq<T>,
    spectrum: Seq<Complex<T>>,
    pitch: T,
    slide: usize,
) -> Seq<Complex<T>> {
    let len = spectrum.len() as int;
    Seq::new(
        spectrum.len(),
        |i: int|
            if i <= len / 2 {
                synth_bin_s(prev_in, prev_out, spectrum, pitch, slide, i)
            } else if len - i < len / 2 {
                conj_s(synth_bin_s(prev_in, prev_out, spectrum, pitch, slide, len - i))
            } else {
                spectrum[i]
            },
    )
}

/// How one processed frame changes a pitch shifter's phase memory:
/// the bins up to Nyquist take the new input phases and the newly
/// synthesized output phases, and the bins above keep their old values.
pub open spec fn shifter_stepped_s<T: Float>(
    pre: PitchShifter<T>,
    spectrum: Seq<Complex<T>>,
    pitch: T,
    slide: usize,
    post: PitchShifter<T>,
) -> bool {
    let len = spectrum.len() as int;
    &&& post.wf()
    &&& post.len_s() == pre.len_s()
    &&& forall|i: int| 0 <= i <= len / 2 && i < len ==> post.prev_in_s()[i] == arg_s(spectrum[i])
    &&& forall|i: int|
        0 <= i <= len / 2 && i < len ==> post.prev_out_s()[i] == synth_phase_s(
            pre.prev_in_s(),
            pre.prev_out_s(),
            spectrum,
            pitch,
            slide,
            i,
        )
    &&& forall|i: int|
        len / 2 < i < len ==> post.prev_in_s()[i] == pre.prev_in_s()[i] && post.prev_out_s()[i]
            == pre.prev_out_s()[i]
}

/// Wraps a phase into `(-pi, pi]` by one remainder step.
pub fn wrap_phase<T: Float>(phase: T) -> (r: T)
    ensures
        r == wrap_phase_s(phase),
{
    if T::zero_f().le_f(phase) {
        phase.add_f(T::pi_f()).rem_f(T::tau_f()).sub_f(T::pi_f())
    } else {
        phase.sub_f(T::pi_f()).rem_f(T::tau_f()).add_f(T::pi_f())
    }
}

/// The first bin of the region that [`remove_aliasing`] clears:
/// `round(len/2 * pitch)`, held inside the buffer.
pub open spec fn alias_start_s<T: Float>(pitch: T, len: int) -> int {
    let ny = T::from_usize_s(len as usize).div_s(T::from_ratio_s(2, 1)).mul_s(pitch).round_s().to_usize_s() as int;
    if ny <= len {
        ny
    } else {
        len
    }
}

/// One past the last bin of the cleared region.
pub open spec fn alias_end_s<T: Float>(pitch: T, len: int) -> int {
    let start = alias_start_s(pitch, len);
    if len - start < len {
        len - start + 1
    } else {
        len
    }
}

/// For a downward pitch shift, clears the bins above the shifted
/// Nyquist bin (and their mirror images), which no source energy can
/// reach: leaving them would mirror spurious energy into the top of
/// the band. An upward or unit shift leaves the buffer untouched.
pub fn remove_aliasing<T: Float>(pitch: T, buffer: &mut Vec<Complex<T>>)
    ensures
        final(buffer)@.len() == old(buffer)@.len(),
        !pitch.lt_s(T::one_s()) ==> final(buffer)@ == old(buffer)@,
        pitch.lt_s(T::one_s()) ==> forall|i: int|
            0 <= i < old(buffer)@.len() ==> final(buffer)@[i] == if alias_start_s(
                pitch,
                old(buffer)@.len() as int,
            ) <= i < alias_end_s(pitch, old(buffer)@.len() as int) {
                Complex { re: T::zero_s(), im: T::zero_s() }
            } else {
                old(buffer)@[i]
            },
{
    let len: usize = buffer.len();
    if pitch.lt_f(T::one_f()) {
        let ny: usize = T::from_usize_f(len).div_f(T::from_ratio_f(2, 1)).mul_f(pitch).round_f()
            .to_usize_f();
        let start: usize = if ny <= len {
            ny
        } else {
            len
        };
        let end: usize = if len - start < len {
            len - start + 1
        } else {
            len
        };
        let mut i: usize = start;
        while i < end
            invariant
                end <= len,
                len == buffer@.len(),
                start <= i,
                i <= if start <= end {
                    end as int
                } else {
                    start as int
                },
                forall|j: int| 0 <= j < start ==> buffer@[j] == old(buffer)@[j],
                forall|j: int| start <= j < i ==> buffer@[j] == (Complex {
                    re: T::zero_s(),
                    im: T::zero_s(),
                }),
                forall|j: int| i <= j < len ==> buffer@[j] == old(buffer)@[j],
            decreases end - i,
        {
            let z = Complex { re: T::zero_f(), im: T::zero_f() };
            buffer.set(i, z);
            i = i + 1;
        }
    }
}

/// One channel's phase-vocoder state: the previous input phase and the
/// previous output phase of every bin. One instance per independent
/// stream; a fresh instance is the only way to break phase continuity.
pub struct PitchShifter<T: Float> {
    prev_input_phases: Vec<T>,
    prev_output_phases: Vec<T>,
}

/// A pitch shifter for frames of `len` samples, with all phase memory
/// at zero.
pub fn pitch_shifter<T: Float>(len: usize) -> (r: PitchShifter<T>)
    ensures
        r.wf(),
        r.len_s() == len,
        forall|i: int| 0 <= i < len ==> r.prev_in_s()[i] == T::zero_s(),
        forall|i: int| 0 <= i < len ==> r.prev_out_s()[i] == T::zero_s(),
{
    let mut prev_input_phases: Vec<T> = Vec::new();
    let mut prev_output_phases: Vec<T> = Vec::new();
    let mut i: usize = 0;
    while i < len
        invariant
            i <= len,
            prev_input_phases@.len() == i,
            prev_output_phases@.len() == i,
            forall|j: int| 0 <= j < i ==> prev_input_phases@[j] == T::zero_s(),
            forall|j: int| 0 <= j < i ==> prev_output_phases@[j] == T::zero_s(),
        decreases len - i,
    {
        prev_input_phases.push(T::zero_f());
        prev_output_phases.push(T::zero_f());
        i = i + 1;
    }
    PitchShifter { prev_input_phases, prev_output_phases }
}

impl<T: Float> PitchShifter<T> {
    pub closed spec fn wf(&self) -> bool {
        self.prev_input_phases@.len() == self.prev_output_phases@.len()
    }

    /// The frame length this state is for.
    pub closed spec fn len_s(&self) -> int {
        self.prev_input_phases@.len() as int
    }

    /// The previous input phase of each bin.
    pub closed spec fn prev_in_s(&self) -> Seq<T> {
        self.prev_input_phases@
    }

    /// The previous output phase of each bin.
    pub closed spec fn prev_out_s(&self) -> Seq<T> {
        self.prev_output_phases@
    }

    /// One phase-vocoder frame: analyzes the spectrum against the
    /// previous input phases, resamples the spectrum by the pitch
    /// ratio, resynthesizes phases against the previous output phases,
    /// and restores Hermitian symmetry. Updates both phase memories.
    ///
    /// A pitch ratio of one maps every bin to itself, so each output
    /// bin keeps its input magnitude exactly, for any frame whose
    /// length the scalar type counts exactly.
    pub fn process(&mut self, spectrum: &[Complex<T>], pitch: T, slide_size: usize) -> (r: Vec<
        Complex<T>,
    >)
        requires
            old(self).wf(),
            spectrum@.len() == old(self).len_s(),
            spectrum@.len() >= 1,
        ensures
            final(self).wf(),
            final(self).len_s() == old(self).len_s(),
            r@.len() == spectrum@.len(),
            (pitch == T::one_s() && spectrum@.len() <= T::max_exact_s()) ==> forall|i: int|
                0 <= i <= spectrum@.len() / 2 ==> shifted_norm_s(spectrum@, pitch, i) == norm_s(
                    #[trigger] spectrum@[i],
                ),
            forall|i: int|
                0 <= i < spectrum@.len() ==> r@[i] == vocoded_s(
                    old(self).prev_in_s(),
                    old(self).prev_out_s(),
                    spectrum@,
                    pitch,
                    slide_size,
                )[i],
            forall|i: int|
                0 <= i <= spectrum@.len() / 2 ==> final(self).prev_in_s()[i] == arg_s(spectrum@[i]),
            forall|i: int|
                0 <= i <= spectrum@.len() / 2 ==> final(self).prev_out_s()[i] == synth_phase_s(
                    old(self).prev_in_s(),
                    old(self).prev_out_s(),
                    spectrum@,
                    pitch,
                    slide_size,
                    i,
                ),
            forall|i: int|
                spectrum@.len() / 2 < i < spectrum@.len() ==> final(self).prev_in_s()[i] == old(
                    self,
                ).prev_in_s()[i] && final(self).prev_out_s()[i] == old(self).prev_out_s()[i],
    {
        let len: usize = spectrum.len();
        let half: usize = len / 2;

        let mut pre_norm: Vec<T> = Vec::new();
        let mut pre_pos: Vec<T> = Vec::new();
        let mut i: usize = 0;
        while i < half + 1
            invariant
                self.wf(),
                len == spectrum@.len(),
                len >= 1,
                half == len / 2,
                len == self.prev_input_phases@.len(),
                self.prev_output_phases@ == old(self).prev_output_phases@,
                i <= half + 1,
                pre_norm@.len() == i,
                pre_pos@.len() == i,
                forall|j: int| 0 <= j < i ==> pre_norm@[j] == norm_s(spectrum@[j]),
                forall|j: int|
                    0 <= j < i ==> pre_pos@[j] == analyzed_pos_s(
                        old(self).prev_in_s(),
                        spectrum@,
                        slide_size,
                        j,
                    ),
                forall|j: int| 0 <= j < i ==> self.prev_input_phases@[j] == arg_s(spectrum@[j]),
                forall|j: int|
                    i <= j < len ==> self.prev_input_phases@[j] == old(self).prev_in_s()[j],
            decreases half + 1 - i,
        {
            let polar = spectrum[i].to_polar();
            let norm = polar.0;
            let phase = polar.1;
            let bin_center_advance = T::tau_f().mul_f(T::from_usize_f(i)).div_f(
                T::from_usize_f(len),
            ).mul_f(T::from_usize_f(slide_size));
            let phase_diff = wrap_phase(phase.sub_f(self.prev_input_phases[i]).sub_f(bin_center_advance));
            self.prev_input_phases.set(i, phase);
            let deviation = phase_diff.mul_f(
                T::from_usize_f(len).div_f(T::from_usize_f(slide_size).mul_f(T::tau_f())),
            );
            pre_norm.push(norm);
            pre_pos.push(T::from_usize_f(i).add_f(deviation));
            i = i + 1;
        }

        let mut shifted: Vec<Complex<T>> = Vec::new();
        let mut k: usize = 0;
        while k < len
            invariant
                k <= len,
                len == spectrum@.len(),
                shifted@.len() == k,
                forall|j: int| 0 <= j < k ==> shifted@[j] == spectrum@[j],
            decreases len - k,
        {
            shifted.push(spectrum[k]);
            k = k + 1;
        }

        let ghost ok_unit = pitch == T::one_s() && spectrum@.len() <= T::max_exact_s();
        let mut i2: usize = 0;
        while i2 < half + 1
            invariant
                ok_unit == (pitch == T::one_s() && spectrum@.len() <= T::max_exact_s()),
                ok_unit ==> forall|j: int|
                    0 <= j < i2 ==> shifted_norm_s(spectrum@, pitch, j) == norm_s(
                        #[trigger] spectrum@[j],
                    ),
                self.wf(),
                len == spectrum@.len(),
                len >= 1,
                half == len / 2,
                half + 1 <= len || len == 1,
                len == self.prev_output_phases@.len(),
                shifted@.len() == len,
                pre_norm@.len() == half + 1,
                pre_pos@.len() == half + 1,
                forall|j: int| 0 <= j < half + 1 ==> pre_norm@[j] == norm_s(spectrum@[j]),
                forall|j: int|
                    0 <= j < half + 1 ==> pre_pos@[j] == analyzed_pos_s(
                        old(self).prev_in_s(),
                        spectrum@,
                        slide_size,
                        j,
                    ),
                forall|j: int| 0 <= j <= half && j < len ==> self.prev_input_phases@[j] == arg_s(spectrum@[j]),
                forall|j: int|
                    half < j < len ==> self.prev_input_phases@[j] == old(self).prev_in_s()[j],
                i2 <= half + 1,
                forall|j: int|
                    0 <= j < i2 ==> shifted@[j] == synth_bin_s(
                        old(self).prev_in_s(),
                        old(self).prev_out_s(),
                        spectrum@,
                        pitch,
                        slide_size,
                        j,
                    ),
                forall|j: int| i2 <= j < len ==> shifted@[j] == spectrum@[j],
                forall|j: int|
                    0 <= j < i2 ==> self.prev_output_phases@[j] == synth_phase_s(
                        old(self).prev_in_s(),
                        old(self).prev_out_s(),
                        spectrum@,
                        pitch,
                        slide_size,
                        j,
                    ),
                forall|j: int|
                    i2 <= j < len ==> self.prev_output_phases@[j] == old(self).prev_out_s()[j],
            decreases half + 1 - i2,
        {
            let shifted_bin: usize = T::from_usize_f(i2).div_f(pitch).round_f().to_usize_f();
            proof {
                if ok_unit {
                    assert(shifted_bin_s(pitch, i2 as int) == i2);
                    assert(shifted_norm_s(spectrum@, pitch, i2 as int) == norm_s(
                        spectrum@[i2 as int],
                    ));
                }
            }
            let post_norm: T;
            let post_pos: T;
            if shifted_bin > half {
                post_norm = T::zero_f();
                post_pos = T::zero_f();
            } else {
                post_norm = pre_norm[shifted_bin];
                post_pos = pre_pos[shifted_bin].mul_f(pitch);
            }

            let bin_deviation = post_pos.sub_f(T::from_usize_f(i2));
            let mut phase_diff = bin_deviation.mul_f(
                T::tau_f().mul_f(T::from_usize_f(slide_size)).div_f(T::from_usize_f(len)),
            );
            let bin_center_advance = T::tau_f().mul_f(T::from_usize_f(i2)).div_f(
                T::from_usize_f(len),
            ).mul_f(T::from_usize_f(slide_size));
            phase_diff = phase_diff.add_f(bin_center_advance);

            let phase = wrap_phase(self.prev_output_phases[i2].add_f(phase_diff));
            let c = Complex::from_polar(post_norm, phase);
            shifted.set(i2, c);
            self.prev_output_phases.set(i2, phase);
            i2 = i2 + 1;
        }

        let ghost before_mirror = shifted@;
        crate::fft::fill_right_part_of_spectrum(&mut shifted);
        proof {
            assert forall|i: int|
                0 <= i < len implies shifted@[i] == vocoded_s(
                old(self).prev_in_s(),
                old(self).prev_out_s(),
                spectrum@,
                pitch,
                slide_size,
            )[i] by {
                if len / 2 < i < len && len - i < len / 2 {
                    let j = len - i;
                    assert(1 <= j < len / 2);
                    assert(shifted@[len - j] == conj_s(before_mirror[j]));
                }
            };
        }
        shifted
    }
}

/// Runs the pitch shifter over a spectrum in place: shift, aliasing
/// removal, and the copy back into the caller's buffer.
pub fn process_spectrum<T: Float>(
    slide_size: usize,
    pitch_shift: &mut PitchShifter<T>,
    pitch: T,
    spectrum: &mut Vec<Complex<T>>,
)
    requires
        old(pitch_shift).wf(),
        old(spectrum)@.len() == old(pitch_shift).len_s(),
        old(spectrum)@.len() >= 1,
    ensures
        final(pitch_shift).wf(),
        final(pitch_shift).len_s() == old(pitch_shift).len_s(),
        final(spectrum)@.len() == old(spectrum)@.len(),
        forall|i: int|
            0 <= i < old(spectrum)@.len() ==> final(spectrum)@[i] == shifted_spectrum_s(
                old(pitch_shift).prev_in_s(),
                old(pitch_shift).prev_out_s(),
                old(spectrum)@,
                pitch,
                slide_size,
            )[i],
        forall|i: int|
            0 <= i <= old(spectrum)@.len() / 2 ==> final(pitch_shift).prev_in_s()[i] == arg_s(
                old(spectrum)@[i],
            ),
        forall|i: int|
            0 <= i <= old(spectrum)@.len() / 2 ==> final(pitch_shift).prev_out_s()[i]
                == synth_phase_s(
                old(pitch_shift).prev_in_s(),
                old(pitch_shift).prev_out_s(),
                old(spectrum)@,
                pitch,
                slide_size,
                i,
            ),
        forall|i: int|
            old(spectrum)@.len() / 2 < i < old(spectrum)@.len()
                ==> final(pitch_shift).prev_in_s()[i] == old(pitch_shift).prev_in_s()[i]
                && final(pitch_shift).prev_out_s()[i] == old(pitch_shift).prev_out_s()[i],
        shifter_stepped_s(
            *old(pitch_shift),
            old(spectrum)@,
            pitch,
            slide_size,
            *final(pitch_shift),
        ),
{
    let shifted = pitch_shift.process(spectrum.as_slice(), pitch, slide_size);
    let mut shifted = shifted;
    remove_aliasing(pitch, &mut shifted);
    proof {
        let pin = old(pitch_shift).prev_in_s();
        let pout = old(pitch_shift).prev_out_s();
        let sp = old(spectrum)@;
        let n = sp.len() as int;
        assert forall|i: int| 0 <= i < n implies shifted@[i] == shifted_spectrum_s(
            pin,
            pout,
            sp,
            pitch,
            slide_size,
        )[i] by {
            assert(vocoded_s(pin, pout, sp, pitch, slide_size).len() == n);
        };
    }
    let len: usize = spectrum.len();
    let mut i: usize = 0;
    while i < len
        invariant
            i <= len,
            len == spectrum@.len(),
            shifted@.len() == len,
            forall|j: int| 0 <= j < i ==> spectrum@[j] == shifted@[j],
            forall|j: int| i <= j < len ==> spectrum@[j] == old(spectrum)@[j],
        decreases len - i,
    {
        let x = shifted[i];
        spectrum.set(i, x);
        i = i + 1;
    }
    proof {
        assert forall|j: int|
            0 <= j < len implies #[trigger] shifted_spectrum_s(
            old(pitch_shift).prev_in_s(),
            old(pitch_shift).prev_out_s(),
            old(spectrum)@,
            pitch,
            slide_size,
        )[j] == spectrum@[j] by {
            assert(spectrum@[j] == shifted@[j]);
            assert(shifted@[j] == shifted_spectrum_s(
                old(pitch_shift).prev_in_s(),
                old(pitch_shift).prev_out_s(),
                old(spectrum)@,
                pitch,
                slide_size,
            )[j]);
        };
    }
}

/// The whole spectrum after one pitch-shifter frame followed by
/// aliasing removal: synthesized bins up to Nyquist, their conjugate
/// mirror above, and the aliasing region cleared for a downward shift.
pub open spec fn shifted_spectrum_s<T: Float>(
    prev_in: Seq<T>,
    prev_out: Seq<T>,
    spectrum: Seq<Complex<T>>,
    pitch: T,
    slide: usize,
) -> Seq<Complex<T>> {
    let len = spectrum.len() as int;
    let mirrored = vocoded_s(prev_in, prev_out, spectrum, pitch, slide);
    if pitch.lt_s(T::one_s()) {
        Seq::new(
            spectrum.len(),
            |i: int|
                if alias_start_s(pitch, len) <= i < alias_end_s(pitch, len) {
                    Complex { re: T::zero_s(), im: T::zero_s() }
                } else {
                    mirrored[i]
                },
        )
    } else {
        mirrored
    }
}

} // verus!
