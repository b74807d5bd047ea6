use vstd::prelude::*;

use crate::fft::{fill_right_part_of_spectrum, fix_scale, Fft};
use crate::float::{arg_s, conj_s, from_polar_s, norm_s, Complex, Float};
use crate::pitch_shift::{alias_end_s, alias_start_s, shifter_stepped_s, vocoded_s, PitchShifter};

verus! {

/// Whether cepstral coefficient `i` is cleared by the lifter: the
/// middle region when the low orders are kept (extracting the smooth
/// envelope), or the low orders and their mirror images when the high
/// orders are kept (extracting the fine structure).
pub open spec fn lift_mask_s(keep_low_orders: bool, order: int, len: int, i: int) -> bool {
    if keep_low_orders {
        order <= i < len - order + 1
    } else {
        i < order || len - order + 1 <= i
    }
}

/// The real-valued curve the cepstral lifter yields: log magnitudes,
/// an unnormalized inverse transform into the cepstrum, the mask, a
/// forward transform back, the rescale by `1/len`, and the real part.
pub open spec fn lift_spectrum_s<T: Float>(
    spectrum: Seq<Complex<T>>,
    keep_low_orders: bool,
    order: int,
) -> Seq<T> {
    let len = spectrum.len() as int;
    let logmag = Seq::new(
        spectrum.len(),
        |i: int|
            Complex {
                re: norm_s(spectrum[i]).add_s(T::epsilon_s()).ln_s(),
                im: T::zero_s(),
            },
    );
    let cepstrum = T::fft_inv_s(logmag);
    let masked = Seq::new(
        spectrum.len(),
        |i: int|
            if lift_mask_s(keep_low_orders, order, len, i) {
                Complex { re: T::zero_s(), im: T::zero_s() }
            } else {
                cepstrum[i]
            },
    );
    let curve = T::fft_fwd_s(masked);
    Seq::new(
        spectrum.len(),
        |i: int| curve[i].re.mul_s(T::one_s().div_s(T::from_usize_s(len as usize))),
    )
}

/// Cepstral liftering: keeps either the low or the high cepstral
/// orders of the spectrum's log-magnitude curve and returns the
/// corresponding smooth envelope or fine-structure curve.
pub fn lift_spectrum<T: Float>(
    fft: &Fft<T>,
    spectrum: &[Complex<T>],
    keep_low_orders: bool,
    envelope_order: usize,
) -> (r: Vec<T>)
    requires
        fft.size_s() == spectrum@.len(),
        0 < envelope_order,
        envelope_order < spectrum@.len() / 2,
    ensures
        r@.len() == spectrum@.len(),
        r@ == lift_spectrum_s(spectrum@, keep_low_orders, envelope_order as int),
{
    let len: usize = spectrum.len();
    let mut buffer: Vec<Complex<T>> = Vec::new();
    let mut i: usize = 0;
    while i < len
        invariant
            i <= len,
            len == spectrum@.len(),
            buffer@.len() == i,
            forall|j: int|
                0 <= j < i ==> buffer@[j] == (Complex {
                    re: norm_s(spectrum@[j]).add_s(T::epsilon_s()).ln_s(),
                    im: T::zero_s(),
                }),
        decreases len - i,
    {
        buffer.push(Complex::from_re(spectrum[i].norm().add_f(T::epsilon_f()).ln_f()));
        i = i + 1;
    }
    let ghost logmag = buffer@;
    proof {
        assert(logmag =~= Seq::new(
            spectrum@.len(),
            |j: int|
                Complex {
                    re: norm_s(spectrum@[j]).add_s(T::epsilon_s()).ln_s(),
                    im: T::zero_s(),
                },
        ));
    }
    fft.inverse(&mut buffer);
    let ghost cepstrum = buffer@;

    if keep_low_orders {
        let mut k: usize = envelope_order;
        while k < len - envelope_order + 1
            invariant
                0 < envelope_order,
                envelope_order <= k,
                k <= if envelope_order <= len - envelope_order + 1 {
                    (len - envelope_order + 1) as int
                } else {
                    envelope_order as int
                },
                envelope_order < len / 2,
                len == spectrum@.len(),
                buffer@.len() == len,
                cepstrum.len() == len,
                forall|j: int| 0 <= j < envelope_order ==> buffer@[j] == cepstrum[j],
                forall|j: int|
                    envelope_order <= j < k ==> buffer@[j] == (Complex {
                        re: T::zero_s(),
                        im: T::zero_s(),
                    }),
                forall|j: int| k <= j < len ==> buffer@[j] == cepstrum[j],
            decreases len - envelope_order + 1 - k,
        {
            let z = Complex { re: T::zero_f(), im: T::zero_f() };
            buffer.set(k, z);
            k = k + 1;
        }
    } else {
        let mut k: usize = 0;
        while k < envelope_order
            invariant
                k <= envelope_order,
                envelope_order < len / 2,
                len == spectrum@.len(),
                buffer@.len() == len,
                cepstrum.len() == len,
                forall|j: int|
                    0 <= j < k ==> buffer@[j] == (Complex { re: T::zero_s(), im: T::zero_s() }),
                forall|j: int| k <= j < len ==> buffer@[j] == cepstrum[j],
            decreases envelope_order - k,
        {
            let z = Complex { re: T::zero_f(), im: T::zero_f() };
            buffer.set(k, z);
            k = k + 1;
        }
        let mut m: usize = len - envelope_order + 1;
        while m < len
            invariant
                0 < envelope_order,
                len - envelope_order + 1 <= m,
                m <= len,
                envelope_order < len / 2,
                len == spectrum@.len(),
                buffer@.len() == len,
                cepstrum.len() == len,
                forall|j: int|
                    0 <= j < envelope_order ==> buffer@[j] == (Complex {
                        re: T::zero_s(),
                        im: T::zero_s(),
                    }),
                forall|j: int| envelope_order <= j < len - envelope_order + 1 ==> buffer@[j] == cepstrum[j],
                forall|j: int|
                    len - envelope_order + 1 <= j < m ==> buffer@[j] == (Complex {
                        re: T::zero_s(),
                        im: T::zero_s(),
                    }),
                forall|j: int| m <= j < len ==> buffer@[j] == cepstrum[j],
            decreases len - m,
        {
            let z = Complex { re: T::zero_f(), im: T::zero_f() };
            buffer.set(m, z);
            m = m + 1;
        }
    }
    proof {
        assert(buffer@ =~= Seq::new(
            spectrum@.len(),
            |j: int|
                if lift_mask_s(keep_low_orders, envelope_order as int, spectrum@.len() as int, j) {
                    Complex { re: T::zero_s(), im: T::zero_s() }
                } else {
                    cepstrum[j]
                },
        ));
    }
    fft.forward(&mut buffer);
    fix_scale(&mut buffer);
    let mut out: Vec<T> = Vec::new();
    let mut n: usize = 0;
    while n < len
        invariant
            n <= len,
            len == buffer@.len(),
            out@.len() == n,
            forall|j: int| 0 <= j < n ==> out@[j] == buffer@[j].re,
        decreases len - n,
    {
        out.push(buffer[n].re);
        n = n + 1;
    }
    proof {
        assert(out@ =~= lift_spectrum_s(spectrum@, keep_low_orders, envelope_order as int));
    }
    out
}

/// The value of output bin `i <= len/2` of the formant shifter: a
/// linear interpolation of the envelope read at `i / formant`, with
/// reads past the Nyquist bin taking a large negative log magnitude.
pub open spec fn formant_shift_at_s<T: Float>(envelope: Seq<T>, formant: T, i: int) -> T {
    let len = envelope.len() as int;
    let jf = T::from_usize_s(i as usize).div_s(formant);
    let j = jf.floor_s().to_usize_s() as int;
    let negative = T::from_ratio_s(-1000i64, 1);
    let l = if j <= len / 2 {
        envelope[j]
    } else {
        negative
    };
    let r = if j + 1 <= len / 2 {
        envelope[j + 1]
    } else {
        negative
    };
    let x = jf.sub_s(T::from_usize_s(j as usize));
    T::one_s().sub_s(x).mul_s(l).add_s(x.mul_s(r))
}

/// The whole resampled envelope: interpolated values up to the Nyquist
/// bin, their mirror images above it, and zero where the mirror cannot
/// reach.
pub open spec fn formant_shift_s<T: Float>(envelope: Seq<T>, formant: T) -> Seq<T> {
    let len = envelope.len() as int;
    Seq::new(
        envelope.len(),
        |i: int|
            if i <= len / 2 {
                formant_shift_at_s(envelope, formant, i)
            } else if len - i < len / 2 {
                formant_shift_at_s(envelope, formant, len - i)
            } else {
                T::zero_s()
            },
    )
}

/// Whether two scalars are the same value, counting any two zeros as
/// the same.
pub open spec fn same_sample_s<T: Float>(a: T, b: T) -> bool {
    a == b || (a.is_zero_s() && b.is_zero_s())
}

/// Resamples an envelope curve along the bin axis by the ratio
/// `formant`, with linear interpolation between neighboring bins.
///
/// A ratio of one returns the envelope unchanged up to the Nyquist
/// bin (up to the sign of zeros), for any envelope of finite values
/// whose length the scalar type counts exactly; the upper bins hold
/// the mirror image of the lower ones either way.
pub fn formant_shift<T: Float>(envelope: &[T], formant: T) -> (r: Vec<T>)
    requires
        envelope@.len() >= 1,
    ensures
        r@.len() == envelope@.len(),
        r@ == formant_shift_s(envelope@, formant),
        (formant == T::one_s() && envelope@.len() <= T::max_exact_s() && (forall|k: int|
            0 <= k < envelope@.len() ==> envelope@[k].is_finite_s())) ==> forall|i: int|
            0 <= i <= envelope@.len() / 2 ==> same_sample_s(r@[i], envelope@[i]),
{
    let len: usize = envelope.len();
    let half: usize = len / 2;
    let negative = T::from_ratio_f(-1000, 1);
    let one = T::one_f();

    let mut new_envelope: Vec<T> = Vec::new();
    let mut z: usize = 0;
    while z < len
        invariant
            z <= len,
            new_envelope@.len() == z,
            forall|j: int| 0 <= j < z ==> new_envelope@[j] == T::zero_s(),
        decreases len - z,
    {
        new_envelope.push(T::zero_f());
        z = z + 1;
    }

    let ghost ok_identity = formant == T::one_s() && envelope@.len() <= T::max_exact_s() && (
    forall|k: int| 0 <= k < envelope@.len() ==> envelope@[k].is_finite_s());

    let mut i: usize = 0;
    while i < half + 1
        invariant
            i <= half + 1,
            half == len / 2,
            len == envelope@.len(),
            len >= 1,
            new_envelope@.len() == len,
            negative == T::from_ratio_s(-1000i64, 1),
            negative.is_finite_s(),
            one == T::one_s(),
            T::one_s().is_finite_s(),
            !T::one_s().is_zero_s(),
            ok_identity == (formant == T::one_s() && envelope@.len() <= T::max_exact_s() && (
            forall|k: int| 0 <= k < envelope@.len() ==> envelope@[k].is_finite_s())),
            forall|j: int|
                0 <= j < i && j < new_envelope@.len() ==> new_envelope@[j] == formant_shift_at_s(
                    envelope@,
                    formant,
                    j,
                ),
            forall|j: int| i <= j < len ==> new_envelope@[j] == T::zero_s(),
            ok_identity ==> forall|j: int|
                0 <= j < i && j <= half ==> same_sample_s(new_envelope@[j], envelope@[j]),
        decreases half + 1 - i,
    {
        let jf = T::from_usize_f(i).div_f(formant);
        let j: usize = jf.floor_f().to_usize_f();
        let l = if j <= half {
            envelope[j]
        } else {
            negative
        };
        let r = if j <= half && j + 1 <= half {
            envelope[j + 1]
        } else {
            negative
        };
        let x = jf.sub_f(T::from_usize_f(j));
        let value = one.sub_f(x).mul_f(l).add_f(x.mul_f(r));
        proof {
            if ok_identity {
                assert(jf == T::from_usize_s(i));
                assert(j == i);
                assert(x.is_zero_s());
                assert(i <= half ==> l == envelope@[i as int]);
                assert(l.is_finite_s());
                assert(r.is_finite_s());
                assert(same_sample_s(value, l));
            }
            if !(j <= half) {
                assert(formant_shift_at_s(envelope@, formant, i as int) == value);
            }
        }
        new_envelope.set(i, value);
        i = i + 1;
    }

    let mut m: usize = 1;
    while m < half
        invariant
            1 <= m,
            m <= half || m == 1,
            half == len / 2,
            len == envelope@.len(),
            new_envelope@.len() == len,
            forall|j: int|
                0 <= j <= half && j < len ==> new_envelope@[j] == formant_shift_at_s(
                    envelope@,
                    formant,
                    j,
                ),
            ok_identity ==> forall|j: int|
                0 <= j <= half && j < len ==> same_sample_s(new_envelope@[j], envelope@[j]),
            forall|k: int|
                len - m < k < len && len / 2 < k ==> new_envelope@[k] == formant_shift_at_s(
                    envelope@,
                    formant,
                    len - k,
                ),
            forall|k: int| len / 2 < k <= len - m && k < len ==> new_envelope@[k] == T::zero_s(),
        decreases half - m,
    {
        let v = new_envelope[m];
        new_envelope.set(len - m, v);
        m = m + 1;
    }
    proof {
        assert(new_envelope@ =~= formant_shift_s(envelope@, formant));
    }
    new_envelope
}

/// The spectrum after one voice-change frame: the envelope of the
/// input, warped by the formant ratio, is recombined with the fine
/// structure and phases of the pitch-shifted spectrum.
pub open spec fn voice_changed_s<T: Float>(
    prev_in: Seq<T>,
    prev_out: Seq<T>,
    spectrum: Seq<Complex<T>>,
    envelope_order: int,
    formant: T,
    pitch: T,
    slide: usize,
) -> Seq<Complex<T>> {
    let len = spectrum.len() as int;
    let shifted_envelope = formant_shift_s(
        lift_spectrum_s(spectrum, true, envelope_order),
        formant,
    );
    let voc = vocoded_s(prev_in, prev_out, spectrum, pitch, slide);
    let fine0 = lift_spectrum_s(voc, false, envelope_order);
    let fine = if pitch.lt_s(T::one_s()) {
        Seq::new(
            spectrum.len(),
            |i: int|
                if alias_start_s(pitch, len) <= i < alias_end_s(pitch, len) {
                    T::zero_s()
                } else {
                    fine0[i]
                },
        )
    } else {
        fine0
    };
    Seq::new(
        spectrum.len(),
        |i: int|
            if i <= len / 2 {
                from_polar_s(shifted_envelope[i].add_s(fine[i]).exp_s(), arg_s(voc[i]))
            } else if len - i < len / 2 {
                conj_s(
                    from_polar_s(
                        shifted_envelope[len - i].add_s(fine[len - i]).exp_s(),
                        arg_s(voc[len - i]),
                    ),
                )
            } else {
                spectrum[i]
            },
    )
}

/// One voice-change frame, in place: separates the envelope from the
/// input spectrum, warps it by `formant`, pitch-shifts the spectrum by
/// `pitch`, extracts the fine structure of the shifted spectrum, and
/// recombines envelope, fine structure and shifted phases.
pub fn process_spectrum<T: Float>(
    slide_size: usize,
    fft: &Fft<T>,
    pitch_shift: &mut PitchShifter<T>,
    envelope_order: usize,
    formant: T,
    pitch: T,
    spectrum: &mut Vec<Complex<T>>,
)
    requires
        old(pitch_shift).wf(),
        old(spectrum)@.len() == old(pitch_shift).len_s(),
        fft.size_s() == old(spectrum)@.len(),
        0 < envelope_order,
        envelope_order < old(spectrum)@.len() / 2,
    ensures
        final(pitch_shift).wf(),
        final(pitch_shift).len_s() == old(pitch_shift).len_s(),
        shifter_stepped_s(
            *old(pitch_shift),
            old(spectrum)@,
            pitch,
            slide_size,
            *final(pitch_shift),
        ),
        final(spectrum)@.len() == old(spectrum)@.len(),
        forall|i: int|
            0 <= i < old(spectrum)@.len() ==> final(spectrum)@[i] == voice_changed_s(
                old(pitch_shift).prev_in_s(),
                old(pitch_shift).prev_out_s(),
                old(spectrum)@,
                envelope_order as int,
                formant,
                pitch,
                slide_size,
            )[i],
{
    let len: usize = spectrum.len();
    let half: usize = len / 2;

    let envelope = lift_spectrum(fft, spectrum.as_slice(), true, envelope_order);
    let shifted_envelope = formant_shift(envelope.as_slice(), formant);

    let shifted_spectrum = pitch_shift.process(spectrum.as_slice(), pitch, slide_size);

    let mut fine_structure = lift_spectrum(fft, shifted_spectrum.as_slice(), false, envelope_order);
    let ghost fine0 = fine_structure@;

    if pitch.lt_f(T::one_f()) {
        let ny: usize = T::from_usize_f(len).div_f(T::from_ratio_f(2, 1)).mul_f(pitch).round_f()
            .to_usize_f();
        let start: usize = if ny <= len {
            ny
        } else {
            len
        };
        let end: usize = if len - start < len {
            len - start + 1
        } else {
            len
        };
        let mut w: usize = start;
        while w < end
            invariant
                end <= len,
                len == fine_structure@.len(),
                fine0.len() == len,
                start <= w,
                w <= if start <= end {
                    end as int
                } else {
                    start as int
                },
                forall|j: int| 0 <= j < start ==> fine_structure@[j] == fine0[j],
                forall|j: int| start <= j < w ==> fine_structure@[j] == T::zero_s(),
                forall|j: int| w <= j < len ==> fine_structure@[j] == fine0[j],
            decreases end - w,
        {
            fine_structure.set(w, T::zero_f());
            w = w + 1;
        }
        proof {
            assert(start == alias_start_s(pitch, len as int));
            assert(end == alias_end_s(pitch, len as int));
        }
    }
    let ghost fine = fine_structure@;

    let mut i: usize = 0;
    while i < half + 1
        invariant
            i <= half + 1,
            half == len / 2,
            len >= 4,
            len == spectrum@.len(),
            shifted_envelope@.len() == len,
            fine.len() == len,
            fine == fine_structure@,
            shifted_spectrum@.len() == len,
            forall|j: int|
                0 <= j < i ==> spectrum@[j] == from_polar_s(
                    shifted_envelope@[j].add_s(fine[j]).exp_s(),
                    arg_s(shifted_spectrum@[j]),
                ),
            forall|j: int| i <= j < len ==> spectrum@[j] == old(spectrum)@[j],
        decreases half + 1 - i,
    {
        let amp = shifted_envelope[i].add_f(fine_structure[i]).exp_f();
        let phase = shifted_spectrum[i].arg();
        let c = Complex::from_polar(amp, phase);
        spectrum.set(i, c);
        i = i + 1;
    }

    let ghost before_mirror = spectrum@;
    fill_right_part_of_spectrum(spectrum);

    proof {
        let pin = old(pitch_shift).prev_in_s();
        let pout = old(pitch_shift).prev_out_s();
        let sp = old(spectrum)@;
        let n = len as int;
        let voc = vocoded_s(pin, pout, sp, pitch, slide_size);
        assert(shifted_envelope@ == formant_shift_s(
            lift_spectrum_s(sp, true, envelope_order as int),
            formant,
        ));
        assert forall|j: int| 0 <= j < n implies shifted_spectrum@[j] == voc[j] by {};
        assert(shifted_spectrum@ =~= voc);
        assert forall|i2: int| 0 <= i2 < n implies final(spectrum)@[i2] == voice_changed_s(
            pin,
            pout,
            sp,
            envelope_order as int,
            formant,
            pitch,
            slide_size,
        )[i2] by {
            if n / 2 < i2 < n && n - i2 < n / 2 {
                let j = n - i2;
                assert(1 <= j < n / 2);
                assert(spectrum@[n - j] == conj_s(before_mirror[j]));
            }
        };
    }
}

} // verus!
