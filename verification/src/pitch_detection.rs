use vstd::prelude::*;

use crate::fft::Fft;
use crate::float::{norm_sqr_s, Complex, Float};

verus! {

/// The running energy after `k` steps of the normalization scan:
/// `epsilon + sum over the first k samples and the last k samples of
/// their squares`, accumulated in the scan's own order.
pub open spec fn energy_acc_s<T: Float>(buf: Seq<T>, k: int) -> T
    decreases k,
{
    if k <= 0 {
        T::epsilon_s()
    } else {
        let i = k - 1;
        let inv = buf.len() - k;
        energy_acc_s(buf, i).add_s(buf[i].mul_s(buf[i])).add_s(buf[inv].mul_s(buf[inv]))
    }
}

/// The normalized autocorrelation value at lag `inv`, given the
/// inverse-transformed power spectrum `ac`:
/// `2 * ac[inv].re / (m * len)` with `m` the running energy that the
/// backward fill has accumulated by the time it writes lag `inv`.
pub open spec fn nsdf_at_s<T: Float>(buf: Seq<T>, ac: Seq<Complex<T>>, inv: int) -> T {
    let len = buf.len() as int;
    let m = energy_acc_s(buf, len - inv);
    T::from_ratio_s(2, 1).mul_s(ac[inv].re).div_s(m.mul_s(T::from_usize_s(len as usize)))
}

/// The whole normalized square difference curve of `buf`, given its
/// spectrum.
pub open spec fn nsdf_s<T: Float>(buf: Seq<T>, spectrum: Seq<Complex<T>>) -> Seq<T> {
    let power = Seq::new(
        spectrum.len(),
        |i: int| Complex { re: norm_sqr_s(spectrum[i]), im: T::zero_s() },
    );
    let ac = T::fft_inv_s(power);
    Seq::new(buf.len(), |inv: int| nsdf_at_s(buf, ac, inv))
}

/// Normalized Square Difference Function (NSDF): replaces each bin of
/// the spectrum by its squared magnitude, inverse-transforms to get
/// the autocorrelation, and normalizes by a running energy term.
pub fn compute_nsdf_from_spectrum<T: Float>(
    fft: &Fft<T>,
    buf: &[T],
    spectrum: Vec<Complex<T>>,
) -> (r: Vec<T>)
    requires
        buf@.len() == spectrum@.len(),
        fft.size_s() == spectrum@.len(),
    ensures
        r@.len() == buf@.len(),
        r@ == nsdf_s(buf@, spectrum@),
{
    let len: usize = buf.len();
    let ghost orig = spectrum@;
    let mut spectrum = spectrum;
    let mut i: usize = 0;
    while i < len
        invariant
            i <= len,
            len == buf@.len(),
            spectrum@.len() == len,
            forall|j: int|
                0 <= j < i ==> spectrum@[j] == (Complex {
                    re: norm_sqr_s(orig[j]),
                    im: T::zero_s(),
                }),
            forall|j: int| i <= j < len ==> spectrum@[j] == orig[j],
        decreases len - i,
    {
        let x = Complex::from_re(spectrum[i].norm_sqr());
        spectrum.set(i, x);
        i = i + 1;
    }
    proof {
        assert(spectrum@ =~= Seq::new(
            orig.len(),
            |j: int| Complex { re: norm_sqr_s(orig[j]), im: T::zero_s() },
        ));
    }
    fft.inverse(&mut spectrum);
    let ghost ac = spectrum@;

    let mut nsdf: Vec<T> = Vec::new();
    let mut z: usize = 0;
    while z < len
        invariant
            z <= len,
            nsdf@.len() == z,
        decreases len - z,
    {
        nsdf.push(T::zero_f());
        z = z + 1;
    }

    let mut m = T::epsilon_f();
    let mut k: usize = 0;
    while k < len
        invariant
            k <= len,
            len == buf@.len(),
            ac.len() == len,
            spectrum@ == ac,
            spectrum@.len() == len,
            nsdf@.len() == len,
            m == energy_acc_s(buf@, k as int),
            forall|inv: int| len - k <= inv < len ==> nsdf@[inv] == nsdf_at_s(buf@, ac, inv),
        decreases len - k,
    {
        let inv: usize = len - k - 1;
        m = m.add_f(buf[k].mul_f(buf[k])).add_f(buf[inv].mul_f(buf[inv]));
        let v = T::from_ratio_f(2, 1).mul_f(spectrum[inv].re).div_f(m.mul_f(T::from_usize_f(len)));
        nsdf.set(inv, v);
        k = k + 1;
    }
    proof {
        assert(nsdf@ =~= nsdf_s(buf@, orig));
    }
    nsdf
}

/// The NSDF of a time-domain frame.
pub fn compute_nsdf<T: Float>(fft: &Fft<T>, buf: &[T]) -> (r: Vec<T>)
    requires
        fft.size_s() == buf@.len(),
    ensures
        r@.len() == buf@.len(),
        r@ == nsdf_s(
            buf@,
            T::fft_fwd_s(Seq::new(buf@.len(), |i: int| Complex { re: buf@[i], im: T::zero_s() })),
        ),
{
    let len: usize = buf.len();
    let mut cmps: Vec<Complex<T>> = Vec::new();
    let mut i: usize = 0;
    while i < len
        invariant
            i <= len,
            len == buf@.len(),
            cmps@.len() == i,
            forall|j: int| 0 <= j < i ==> cmps@[j] == (Complex { re: buf@[j], im: T::zero_s() }),
        decreases len - i,
    {
        cmps.push(Complex::from_re(buf[i]));
        i = i + 1;
    }
    proof {
        assert(cmps@ =~= Seq::new(
            buf@.len(),
            |j: int| Complex { re: buf@[j], im: T::zero_s() },
        ));
    }
    fft.forward(&mut cmps);
    compute_nsdf_from_spectrum(fft, buf, cmps)
}

/// One step of the peak scan at index `i` over the state
/// `(collected peaks, current candidate, before-first-negative flag)`.
pub open spec fn peak_step_s<T: Float>(
    nsdf: Seq<T>,
    state: (Seq<(T, T)>, (T, T), bool),
    i: int,
) -> (Seq<(T, T)>, (T, T), bool) {
    let (peaks, peak, is_first) = state;
    if nsdf[i + 1].lt_s(T::zero_s()) {
        if T::zero_s().lt_s(peak.1) {
            (peaks.push(peak), (T::zero_s(), T::zero_s()), false)
        } else {
            (peaks, peak, false)
        }
    } else if !is_first && T::zero_s().lt_s(nsdf[i + 1].sub_s(nsdf[i])) && nsdf[i + 2].sub_s(
        nsdf[i + 1],
    ).le_s(T::zero_s()) {
        let two = T::from_ratio_s(2, 1);
        let t = two.mul_s(nsdf[i].sub_s(two.mul_s(nsdf[i + 1])).add_s(nsdf[i + 2]));
        let d = nsdf[i].sub_s(nsdf[i + 2]).div_s(t);
        let c = nsdf[i + 1].sub_s(t.mul_s(d).mul_s(d).div_s(T::from_ratio_s(4, 1)));
        if peak.1.lt_s(c) {
            (peaks, (T::from_usize_s(i as usize).add_s(d), c), is_first)
        } else {
            (peaks, peak, is_first)
        }
    } else {
        (peaks, peak, is_first)
    }
}

/// The scan state after the first `n` steps of the peak scan.
pub open spec fn peak_scan_s<T: Float>(nsdf: Seq<T>, n: int) -> (Seq<(T, T)>, (T, T), bool)
    decreases n,
{
    if n <= 0 {
        (Seq::<(T, T)>::empty(), (T::zero_s(), T::zero_s()), true)
    } else {
        peak_step_s(nsdf, peak_scan_s(nsdf, n - 1), n - 1)
    }
}

/// The candidates of the whole curve: the scan runs while three
/// samples ahead remain.
pub open spec fn peaks_of_s<T: Float>(nsdf: Seq<T>) -> Seq<(T, T)> {
    let steps = if nsdf.len() >= 3 {
        nsdf.len() - 3
    } else {
        0
    };
    peak_scan_s(nsdf, steps as int).0
}

/// Walks the curve left to right and collects one interpolated peak
/// candidate `(lag, height)` per positive lobe: within a lobe, a
/// parabola is fitted through every three-sample local maximum and the
/// tallest fit is kept; a negative sample closes the lobe. The lobe in
/// progress before the first negative sample is not collected, and
/// neither is an unfinished final lobe.
pub fn compute_peaks<T: Float>(nsdf: &[T]) -> (r: Vec<(T, T)>)
    ensures
        r@ == peaks_of_s(nsdf@),
{
    let zero = T::zero_f();
    let mut peak: (T, T) = (zero, zero);
    let mut peaks: Vec<(T, T)> = Vec::new();
    let mut is_first: bool = true;

    let steps: usize = if nsdf.len() >= 3 {
        nsdf.len() - 3
    } else {
        0
    };
    let mut i: usize = 0;
    while i < steps
        invariant
            i <= steps,
            steps <= nsdf@.len(),
            nsdf@.len() >= 3 ==> steps == nsdf@.len() - 3,
            nsdf@.len() < 3 ==> steps == 0,
            (peaks@, peak, is_first) == peak_scan_s(nsdf@, i as int),
        decreases steps - i,
    {
        let ghost pre = (peaks@, peak, is_first);
        if nsdf[i + 1].lt_f(T::zero_f()) {
            if T::zero_f().lt_f(peak.1) {
                peaks.push(peak);
                peak = (T::zero_f(), T::zero_f());
            }
            is_first = false;
        } else if !is_first && T::zero_f().lt_f(nsdf[i + 1].sub_f(nsdf[i])) && nsdf[i + 2].sub_f(
            nsdf[i + 1],
        ).le_f(T::zero_f()) {
            let two = T::from_ratio_f(2, 1);
            let t = two.mul_f(nsdf[i].sub_f(two.mul_f(nsdf[i + 1])).add_f(nsdf[i + 2]));
            let d = nsdf[i].sub_f(nsdf[i + 2]).div_f(t);
            let c = nsdf[i + 1].sub_f(t.mul_f(d).mul_f(d).div_f(T::from_ratio_f(4, 1)));
            if peak.1.lt_f(c) {
                peak = (T::from_usize_f(i).add_f(d), c);
            }
        }
        proof {
            assert((peaks@, peak, is_first) == peak_step_s(nsdf@, pre, i as int));
        }
        i = i + 1;
    }
    peaks
}

/// The candidates at or below the wavelength floor removed.
pub open spec fn retained_peaks_s<T: Float>(peaks: Seq<(T, T)>, min_wavelength: T) -> Seq<(T, T)>
    decreases peaks.len(),
{
    if peaks.len() == 0 {
        Seq::<(T, T)>::empty()
    } else {
        let rest = retained_peaks_s(peaks.drop_last(), min_wavelength);
        if min_wavelength.lt_s(peaks.last().0) {
            rest.push(peaks.last())
        } else {
            rest
        }
    }
}

/// The tallest candidate height, starting from zero.
pub open spec fn max_height_s<T: Float>(peaks: Seq<(T, T)>) -> T
    decreases peaks.len(),
{
    if peaks.len() == 0 {
        T::zero_s()
    } else {
        max_height_s(peaks.drop_last()).max_s(peaks.last().1)
    }
}

/// The first candidate from `i` on whose height reaches `bound`.
pub open spec fn first_reaching_s<T: Float>(peaks: Seq<(T, T)>, bound: T, i: int) -> Option<
    (T, T),
>
    decreases peaks.len() - i,
{
    if i < 0 || i >= peaks.len() {
        None
    } else if bound.le_s(peaks[i].1) {
        Some(peaks[i])
    } else {
        first_reaching_s(peaks, bound, i + 1)
    }
}

/// What the detector reports for a windowed frame `buf` under the
/// window `window`: candidates of the NSDF curve's lower half, the
/// implausibly short wavelengths discarded; if the tallest remaining
/// height clears `peak_threshold`, the first candidate within ninety
/// percent of it, and no detection otherwise.
pub open spec fn pitch_detect_s<T: Float>(
    window: Seq<T>,
    buf: Seq<T>,
    min_wavelength: T,
    peak_threshold: T,
) -> Option<(T, T)> {
    let windowed = Seq::new(buf.len(), |i: int| buf[i].mul_s(window[i]));
    let spectrum = T::fft_fwd_s(
        Seq::new(buf.len(), |i: int| Complex { re: windowed[i], im: T::zero_s() }),
    );
    let nsdf = nsdf_s(windowed, spectrum);
    let peaks = retained_peaks_s(
        peaks_of_s(nsdf.take((buf.len() / 2) as int)),
        min_wavelength,
    );
    let max_peak = max_height_s(peaks);
    if peak_threshold.lt_s(max_peak) {
        first_reaching_s(peaks, max_peak.mul_s(T::from_ratio_s(9, 10)), 0)
    } else {
        None
    }
}

/// Detects the fundamental period of a frame. Returns the wavelength
/// in samples and the confidence, or nothing when no candidate clears
/// the threshold.
pub fn pitch_detect<T: Float>(
    fft: &Fft<T>,
    window: &[T],
    buf: &[T],
    min_wavelength: T,
    peak_threshold: T,
) -> (r: Option<(T, T)>)
    requires
        window@.len() == buf@.len(),
        fft.size_s() == buf@.len(),
    ensures
        r == pitch_detect_s(window@, buf@, min_wavelength, peak_threshold),
{
    let windowed = crate::apply_window(window, buf);
    let nsdf = compute_nsdf(fft, windowed.as_slice());
    proof {
        assert(windowed@ =~= Seq::new(buf@.len(), |i: int| buf@[i].mul_s(window@[i])));
        assert(Seq::new(windowed@.len(), |i: int| Complex { re: windowed@[i], im: T::zero_s() })
            =~= Seq::new(buf@.len(), |i: int| Complex { re: windowed@[i], im: T::zero_s() }));
    }

    let half: usize = nsdf.len() / 2;
    let mut lower: Vec<T> = Vec::new();
    let mut i: usize = 0;
    while i < half
        invariant
            i <= half,
            half <= nsdf@.len(),
            lower@.len() == i,
            forall|j: int| 0 <= j < i ==> lower@[j] == nsdf@[j],
        decreases half - i,
    {
        lower.push(nsdf[i]);
        i = i + 1;
    }
    proof {
        assert(lower@ =~= nsdf@.take(half as int));
    }
    let all_peaks = compute_peaks(lower.as_slice());

    let mut peaks: Vec<(T, T)> = Vec::new();
    let mut k: usize = 0;
    while k < all_peaks.len()
        invariant
            k <= all_peaks@.len(),
            peaks@ == retained_peaks_s(all_peaks@.take(k as int), min_wavelength),
        decreases all_peaks@.len() - k,
    {
        let p = all_peaks[k];
        proof {
            assert(all_peaks@.take(k as int + 1).drop_last() =~= all_peaks@.take(k as int));
            assert(all_peaks@.take(k as int + 1).last() == all_peaks@[k as int]);
        }
        if min_wavelength.lt_f(p.0) {
            peaks.push(p);
        }
        k = k + 1;
    }
    proof {
        assert(all_peaks@.take(all_peaks@.len() as int) =~= all_peaks@);
    }

    let mut max_peak = T::zero_f();
    let mut m: usize = 0;
    while m < peaks.len()
        invariant
            m <= peaks@.len(),
            max_peak == max_height_s(peaks@.take(m as int)),
        decreases peaks@.len() - m,
    {
        proof {
            assert(peaks@.take(m as int + 1).drop_last() =~= peaks@.take(m as int));
            assert(peaks@.take(m as int + 1).last() == peaks@[m as int]);
        }
        max_peak = max_peak.max_f(peaks[m].1);
        m = m + 1;
    }
    proof {
        assert(peaks@.take(peaks@.len() as int) =~= peaks@);
    }

    if peak_threshold.lt_f(max_peak) {
        let bound = max_peak.mul_f(T::from_ratio_f(9, 10));
        proof {
            assert(pitch_detect_s(window@, buf@, min_wavelength, peak_threshold)
                == first_reaching_s(peaks@, bound, 0));
        }
        let mut n: usize = 0;
        loop
            invariant
                0 <= n <= peaks@.len(),
                pitch_detect_s(window@, buf@, min_wavelength, peak_threshold)
                    == first_reaching_s(peaks@, bound, n as int),
            decreases peaks@.len() - n,
        {
            if n >= peaks.len() {
                proof {
                    assert(first_reaching_s(peaks@, bound, n as int) is None);
                }
                return None;
            }
            let p = peaks[n];
            if bound.le_f(p.1) {
                proof {
                    assert(first_reaching_s(peaks@, bound, n as int) == Some(p));
                }
                return Some(p);
            }
            n = n + 1;
        }
    } else {
        None
    }
}

} // verus!
