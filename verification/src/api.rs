use vstd::prelude::*;

use crate::fft::{fix_scale, Fft};
use crate::float::{Complex, Float};
use crate::pitch_detection::{
    first_reaching_s, max_height_s, nsdf_s, peaks_of_s, retained_peaks_s,
};
use crate::pitch_shift::{pitch_shifter, shifted_spectrum_s, shifter_stepped_s, PitchShifter};
use crate::transform::FrameProcessor;
use crate::voice_change::voice_changed_s;
use crate::{apply_window, apply_window_with_scale};

verus! {

/// The sum of a window table, accumulated left to right from zero.
pub open spec fn window_sum_s<T: Float>(window: Seq<T>, n: int) -> T
    decreases n,
{
    if n <= 0 {
        T::zero_s()
    } else {
        window_sum_s(window, n - 1).add_s(window[n - 1])
    }
}

/// The spectrum of one frame after the analysis window and the
/// forward transform.
pub open spec fn analyzed_s<T: Float>(pre_window: Seq<T>, frame: Seq<T>) -> Seq<Complex<T>> {
    T::fft_fwd_s(
        Seq::new(frame.len(), |i: int| Complex { re: frame[i].mul_s(pre_window[i]), im: T::zero_s() }),
    )
}

/// One frame's worth of output samples, given the processed spectrum:
/// the unnormalized inverse transform, the rescale by `1/len`, the
/// real part, the synthesis window, and the constant output gain
/// `slide / sum(post_window)` that keeps the overlap-added amplitude
/// steady.
pub open spec fn resynthesized_s<T: Float>(
    spectrum: Seq<Complex<T>>,
    post_window: Seq<T>,
    slide: usize,
) -> Seq<T> {
    let len = post_window.len() as int;
    let time = T::fft_inv_s(spectrum);
    let rescale = T::one_s().div_s(T::from_usize_s(len as usize));
    let output_scale = T::from_usize_s(slide).div_s(window_sum_s(post_window, len));
    Seq::new(
        post_window.len(),
        |i: int| time[i].re.mul_s(rescale).mul_s(post_window[i]).mul_s(output_scale),
    )
}

/// Windows a frame, transforms it, and hands the spectrum back for a
/// spectral effect to edit in place.
pub fn analyze_frame<T: Float>(fft: &Fft<T>, pre_window: &[T], frame: &[T]) -> (r:
    Vec<Complex<T>>)
    requires
        pre_window@.len() == frame@.len(),
        fft.size_s() == frame@.len(),
    ensures
        r@.len() == frame@.len(),
        r@ == analyzed_s(pre_window@, frame@),
{
    let windowed = apply_window(pre_window, frame);
    let len: usize = windowed.len();
    let mut spec: Vec<Complex<T>> = Vec::new();
    let mut i: usize = 0;
    while i < len
        invariant
            i <= len,
            len == windowed@.len(),
            spec@.len() == i,
            forall|j: int| 0 <= j < i ==> spec@[j] == (Complex { re: windowed@[j], im: T::zero_s() }),
        decreases len - i,
    {
        spec.push(Complex::from_re(windowed[i]));
        i = i + 1;
    }
    proof {
        assert(spec@ =~= Seq::new(
            frame@.len(),
            |j: int| Complex { re: frame@[j].mul_s(pre_window@[j]), im: T::zero_s() },
        ));
    }
    fft.forward(&mut spec);
    spec
}

/// Transforms a processed spectrum back to one frame of output
/// samples: inverse transform, rescale, synthesis window and output
/// gain.
pub fn resynthesize_frame<T: Float>(
    fft: &Fft<T>,
    post_window: &[T],
    slide_size: usize,
    spectrum: Vec<Complex<T>>,
) -> (r: Vec<T>)
    requires
        post_window@.len() == spectrum@.len(),
        fft.size_s() == spectrum@.len(),
    ensures
        r@.len() == spectrum@.len(),
        r@ == resynthesized_s(spectrum@, post_window@, slide_size),
{
    let mut buf = spectrum;
    fft.inverse(&mut buf);
    fix_scale(&mut buf);
    let len: usize = buf.len();
    let mut time: Vec<T> = Vec::new();
    let mut i: usize = 0;
    while i < len
        invariant
            i <= len,
            len == buf@.len(),
            time@.len() == i,
            forall|j: int| 0 <= j < i ==> time@[j] == buf@[j].re,
        decreases len - i,
    {
        time.push(buf[i].re);
        i = i + 1;
    }
    let mut total = T::zero_f();
    let mut k: usize = 0;
    while k < post_window.len()
        invariant
            k <= post_window@.len(),
            total == window_sum_s(post_window@, k as int),
        decreases post_window@.len() - k,
    {
        total = total.add_f(post_window[k]);
        k = k + 1;
    }
    let output_scale = T::from_usize_f(slide_size).div_f(total);
    let out = apply_window_with_scale(post_window, output_scale, time.as_slice());
    proof {
        assert(out@ =~= resynthesized_s(spectrum@, post_window@, slide_size));
    }
    out
}

/// A frame processor that shifts the pitch of each frame by a fixed
/// ratio with the phase vocoder.
pub struct PitchShiftEffect<T: Float> {
    fft: Fft<T>,
    pre_window: Vec<T>,
    post_window: Vec<T>,
    slide_size: usize,
    /// The pitch ratio applied to every frame.
    pub pitch: T,
    shifter: PitchShifter<T>,
}

impl<T: Float> PitchShiftEffect<T> {
    pub closed spec fn wf(&self) -> bool {
        &&& self.fft.size_s() == self.pre_window@.len()
        &&& self.post_window@.len() == self.pre_window@.len()
        &&& self.shifter.wf()
        &&& self.shifter.len_s() == self.pre_window@.len()
        &&& self.pre_window@.len() >= 1
    }

    /// The frame length the effect was built for.
    pub closed spec fn window_size_s(&self) -> int {
        self.pre_window@.len() as int
    }

    /// The phase memory of the effect's pitch shifter.
    pub closed spec fn shifter_s(&self) -> PitchShifter<T> {
        self.shifter
    }

    /// The analysis window.
    pub closed spec fn pre_window_s(&self) -> Seq<T> {
        self.pre_window@
    }

    /// The synthesis window.
    pub closed spec fn post_window_s(&self) -> Seq<T> {
        self.post_window@
    }

    /// How many samples each frame advances by.
    pub closed spec fn slide_size_s(&self) -> usize {
        self.slide_size
    }

    /// The pitch ratio.
    pub closed spec fn pitch_s(&self) -> T {
        self.pitch
    }
}

/// A pitch-shifting frame processor: `pitch` is the frequency ratio,
/// the windows are the analysis and synthesis windows of the frames.
pub fn pitch_shift<T: Float>(
    pre_window: Vec<T>,
    post_window: Vec<T>,
    slide_size: usize,
    pitch: T,
) -> (r: PitchShiftEffect<T>)
    requires
        pre_window@.len() == post_window@.len(),
        pre_window@.len() >= 1,
    ensures
        r.wf(),
        r.window_size_s() == pre_window@.len(),
        r.pre_window_s() == pre_window@,
        r.post_window_s() == post_window@,
        r.slide_size_s() == slide_size,
        r.pitch_s() == pitch,
        r.shifter_s().wf(),
        r.shifter_s().len_s() == pre_window@.len(),
        forall|i: int|
            0 <= i < pre_window@.len() ==> r.shifter_s().prev_in_s()[i] == T::zero_s()
                && r.shifter_s().prev_out_s()[i] == T::zero_s(),
{
    let window_size: usize = pre_window.len();
    let fft = Fft::new(window_size);
    let shifter = pitch_shifter(window_size);
    PitchShiftEffect { fft, pre_window, post_window, slide_size, pitch, shifter }
}

impl<T: Float> FrameProcessor<T> for PitchShiftEffect<T> {
    open spec fn accepts_s(&self, len: int) -> bool {
        self.wf() && len == self.window_size_s()
    }

    open spec fn deterministic_s(&self) -> bool {
        true
    }

    open spec fn model_s(&self, frame: Seq<T>) -> Seq<T> {
        resynthesized_s(
            shifted_spectrum_s(
                self.shifter_s().prev_in_s(),
                self.shifter_s().prev_out_s(),
                analyzed_s(self.pre_window_s(), frame),
                self.pitch_s(),
                self.slide_size_s(),
            ),
            self.post_window_s(),
            self.slide_size_s(),
        )
    }

    open spec fn steps_s(&self, frame: Seq<T>, next: Self) -> bool {
        &&& next.wf()
        &&& next.pre_window_s() == self.pre_window_s()
        &&& next.post_window_s() == self.post_window_s()
        &&& next.slide_size_s() == self.slide_size_s()
        &&& next.pitch_s() == self.pitch_s()
        &&& shifter_stepped_s(
            self.shifter_s(),
            analyzed_s(self.pre_window_s(), frame),
            self.pitch_s(),
            self.slide_size_s(),
            next.shifter_s(),
        )
    }

    fn process_frame(&mut self, frame: &[T]) -> (r: Vec<T>)
        ensures
            r@ == resynthesized_s(
                shifted_spectrum_s(
                    old(self).shifter_s().prev_in_s(),
                    old(self).shifter_s().prev_out_s(),
                    analyzed_s(old(self).pre_window_s(), frame@),
                    old(self).pitch_s(),
                    old(self).slide_size_s(),
                ),
                old(self).post_window_s(),
                old(self).slide_size_s(),
            ),
    {
        let slide_size: usize = self.slide_size;
        let pitch = self.pitch;
        let mut spec = analyze_frame(&self.fft, self.pre_window.as_slice(), frame);
        crate::pitch_shift::process_spectrum(slide_size, &mut self.shifter, pitch, &mut spec);
        proof {
            assert(spec@ =~= shifted_spectrum_s(
                old(self).shifter.prev_in_s(),
                old(self).shifter.prev_out_s(),
                analyzed_s(old(self).pre_window@, frame@),
                pitch,
                slide_size,
            ));
        }
        resynthesize_frame(&self.fft, self.post_window.as_slice(), slide_size, spec)
    }
}

/// A frame processor that shifts pitch and formants independently:
/// the spectral envelope is warped by `formant` while the pitch-shifted
/// fine structure keeps the new pitch.
pub struct VoiceChangeEffect<T: Float> {
    fft: Fft<T>,
    pre_window: Vec<T>,
    post_window: Vec<T>,
    slide_size: usize,
    envelope_order: usize,
    /// The formant (envelope) ratio applied to every frame.
    pub formant: T,
    /// The pitch ratio applied to every frame.
    pub pitch: T,
    shifter: PitchShifter<T>,
}

impl<T: Float> VoiceChangeEffect<T> {
    pub closed spec fn wf(&self) -> bool {
        &&& self.fft.size_s() == self.pre_window@.len()
        &&& self.post_window@.len() == self.pre_window@.len()
        &&& self.shifter.wf()
        &&& self.shifter.len_s() == self.pre_window@.len()
        &&& 0 < self.envelope_order
        &&& self.envelope_order < self.pre_window@.len() / 2
    }

    /// The frame length the effect was built for.
    pub closed spec fn window_size_s(&self) -> int {
        self.pre_window@.len() as int
    }

    /// The phase memory of the effect's pitch shifter.
    pub closed spec fn shifter_s(&self) -> PitchShifter<T> {
        self.shifter
    }

    /// The analysis window.
    pub closed spec fn pre_window_s(&self) -> Seq<T> {
        self.pre_window@
    }

    /// The synthesis window.
    pub closed spec fn post_window_s(&self) -> Seq<T> {
        self.post_window@
    }

    /// How many low cepstral orders count as the envelope.
    pub closed spec fn envelope_order_s(&self) -> int {
        self.envelope_order as int
    }

    /// How many samples each frame advances by.
    pub closed spec fn slide_size_s(&self) -> usize {
        self.slide_size
    }

    /// The formant ratio.
    pub closed spec fn formant_s(&self) -> T {
        self.formant
    }

    /// The pitch ratio.
    pub closed spec fn pitch_s(&self) -> T {
        self.pitch
    }
}

/// A voice-changing frame processor: an independent formant ratio and
/// pitch ratio. `envelope_order` is the number of cepstral
/// coefficients treated as the envelope; it must lie strictly between
/// zero and half the window size.
pub fn voice_change<T: Float>(
    pre_window: Vec<T>,
    post_window: Vec<T>,
    slide_size: usize,
    envelope_order: usize,
    formant: T,
    pitch: T,
) -> (r: VoiceChangeEffect<T>)
    requires
        pre_window@.len() == post_window@.len(),
        0 < envelope_order,
        envelope_order < pre_window@.len() / 2,
    ensures
        r.wf(),
        r.window_size_s() == pre_window@.len(),
        r.pre_window_s() == pre_window@,
        r.post_window_s() == post_window@,
        r.envelope_order_s() == envelope_order,
        r.slide_size_s() == slide_size,
        r.formant_s() == formant,
        r.pitch_s() == pitch,
        r.shifter_s().wf(),
        r.shifter_s().len_s() == pre_window@.len(),
        forall|i: int|
            0 <= i < pre_window@.len() ==> r.shifter_s().prev_in_s()[i] == T::zero_s()
                && r.shifter_s().prev_out_s()[i] == T::zero_s(),
{
    let window_size: usize = pre_window.len();
    let fft = Fft::new(window_size);
    let shifter = pitch_shifter(window_size);
    VoiceChangeEffect {
        fft,
        pre_window,
        post_window,
        slide_size,
        envelope_order,
        formant,
        pitch,
        shifter,
    }
}

impl<T: Float> FrameProcessor<T> for VoiceChangeEffect<T> {
    open spec fn accepts_s(&self, len: int) -> bool {
        self.wf() && len == self.window_size_s()
    }

    open spec fn deterministic_s(&self) -> bool {
        true
    }

    open spec fn model_s(&self, frame: Seq<T>) -> Seq<T> {
        resynthesized_s(
            voice_changed_s(
                self.shifter_s().prev_in_s(),
                self.shifter_s().prev_out_s(),
                analyzed_s(self.pre_window_s(), frame),
                self.envelope_order_s(),
                self.formant_s(),
                self.pitch_s(),
                self.slide_size_s(),
            ),
            self.post_window_s(),
            self.slide_size_s(),
        )
    }

    open spec fn steps_s(&self, frame: Seq<T>, next: Self) -> bool {
        &&& next.wf()
        &&& next.pre_window_s() == self.pre_window_s()
        &&& next.post_window_s() == self.post_window_s()
        &&& next.slide_size_s() == self.slide_size_s()
        &&& next.envelope_order_s() == self.envelope_order_s()
        &&& next.formant_s() == self.formant_s()
        &&& next.pitch_s() == self.pitch_s()
        &&& shifter_stepped_s(
            self.shifter_s(),
            analyzed_s(self.pre_window_s(), frame),
            self.pitch_s(),
            self.slide_size_s(),
            next.shifter_s(),
        )
    }

    fn process_frame(&mut self, frame: &[T]) -> (r: Vec<T>)
        ensures
            r@ == resynthesized_s(
                voice_changed_s(
                    old(self).shifter_s().prev_in_s(),
                    old(self).shifter_s().prev_out_s(),
                    analyzed_s(old(self).pre_window_s(), frame@),
                    old(self).envelope_order_s(),
                    old(self).formant_s(),
                    old(self).pitch_s(),
                    old(self).slide_size_s(),
                ),
                old(self).post_window_s(),
                old(self).slide_size_s(),
            ),
    {
        let slide_size: usize = self.slide_size;
        let envelope_order: usize = self.envelope_order;
        let formant = self.formant;
        let pitch = self.pitch;
        let mut spec = analyze_frame(&self.fft, self.pre_window.as_slice(), frame);
        crate::voice_change::process_spectrum(
            slide_size,
            &self.fft,
            &mut self.shifter,
            envelope_order,
            formant,
            pitch,
            &mut spec,
        );
        proof {
            assert(spec@ =~= voice_changed_s(
                old(self).shifter.prev_in_s(),
                old(self).shifter.prev_out_s(),
                analyzed_s(old(self).pre_window@, frame@),
                envelope_order as int,
                formant,
                pitch,
                slide_size,
            ));
        }
        resynthesize_frame(&self.fft, self.post_window.as_slice(), slide_size, spec)
    }
}

/// A caller-supplied rule mapping a detected fundamental frequency to
/// the pitch ratio to apply — a tuning curve.
pub trait PitchFn<T: Float> {
    /// Whether the rule's answer is a function of the frequency alone.
    open spec fn deterministic_s(&self) -> bool {
        arbitrary()
    }

    /// The ratio the rule returns, where it is deterministic.
    open spec fn model_s(&self, freq: T) -> T {
        arbitrary()
    }

    fn pitch_of(&mut self, freq: T) -> (r: T)
        ensures
            old(self).deterministic_s() ==> r == old(self).model_s(freq),
    ;
}

/// What the pitch corrector detects on a raw frame: candidates of the
/// frame's NSDF curve's lower half with implausibly short wavelengths
/// discarded; if the tallest height clears the threshold, the first
/// candidate within ninety percent of it.
pub open spec fn correct_detect_s<T: Float>(
    buf: Seq<T>,
    min_wavelength: T,
    peak_threshold: T,
) -> Option<(T, T)> {
    let spectrum = T::fft_fwd_s(
        Seq::new(buf.len(), |i: int| Complex { re: buf[i], im: T::zero_s() }),
    );
    let nsdf = nsdf_s(buf, spectrum);
    let peaks = retained_peaks_s(peaks_of_s(nsdf.take((buf.len() / 2) as int)), min_wavelength);
    let max_peak = max_height_s(peaks);
    if peak_threshold.lt_s(max_peak) {
        first_reaching_s(peaks, max_peak.mul_s(T::from_ratio_s(9, 10)), 0)
    } else {
        None
    }
}

/// A frame processor that detects the fundamental frequency of each
/// frame and pitch-shifts it to wherever the tuning rule directs.
pub struct PitchCorrectEffect<T: Float, F: PitchFn<T>> {
    fft: Fft<T>,
    pre_window: Vec<T>,
    post_window: Vec<T>,
    slide_size: usize,
    sample_rate: T,
    min_wavelength: T,
    peak_threshold: T,
    pitch_fn: F,
    shifter: PitchShifter<T>,
}

impl<T: Float, F: PitchFn<T>> PitchCorrectEffect<T, F> {
    pub closed spec fn wf(&self) -> bool {
        &&& self.fft.size_s() == self.pre_window@.len()
        &&& self.post_window@.len() == self.pre_window@.len()
        &&& self.shifter.wf()
        &&& self.shifter.len_s() == self.pre_window@.len()
        &&& self.pre_window@.len() >= 1
    }

    /// The frame length the effect was built for.
    pub closed spec fn window_size_s(&self) -> int {
        self.pre_window@.len() as int
    }

    /// The wavelength floor below which candidates are discarded.
    pub closed spec fn min_wavelength_s(&self) -> T {
        self.min_wavelength
    }

    /// The confidence a candidate must clear to count as a detection.
    pub closed spec fn peak_threshold_s(&self) -> T {
        self.peak_threshold
    }

    /// The sample rate the detector's frequencies are reckoned in.
    pub closed spec fn sample_rate_s(&self) -> T {
        self.sample_rate
    }

    /// The tuning rule's current state.
    pub closed spec fn pitch_fn_s(&self) -> F {
        self.pitch_fn
    }

    /// How many samples each frame advances by.
    pub closed spec fn slide_size_s(&self) -> usize {
        self.slide_size
    }

    /// The phase memory of the effect's pitch shifter.
    pub closed spec fn shifter_s(&self) -> PitchShifter<T> {
        self.shifter
    }

    /// The analysis window.
    pub closed spec fn pre_window_s(&self) -> Seq<T> {
        self.pre_window@
    }

    /// The synthesis window.
    pub closed spec fn post_window_s(&self) -> Seq<T> {
        self.post_window@
    }
}

/// A pitch-correcting frame processor. The detector looks for
/// wavelengths above `sample_rate / 2200` samples and accepts peaks of
/// confidence above two fifths; `pitch_fn` maps each detected
/// frequency to the ratio to shift by, and a frame with no detection
/// is shifted by ratio zero.
pub fn pitch_correct<T: Float, F: PitchFn<T>>(
    pre_window: Vec<T>,
    post_window: Vec<T>,
    slide_size: usize,
    sample_rate: u32,
    pitch_fn: F,
) -> (r: PitchCorrectEffect<T, F>)
    requires
        pre_window@.len() == post_window@.len(),
        pre_window@.len() >= 1,
    ensures
        r.wf(),
        r.window_size_s() == pre_window@.len(),
        r.pre_window_s() == pre_window@,
        r.post_window_s() == post_window@,
        r.slide_size_s() == slide_size,
        r.sample_rate_s() == T::from_usize_s(sample_rate as usize),
        r.min_wavelength_s() == T::from_usize_s(sample_rate as usize).div_s(
            T::from_ratio_s(2200, 1),
        ),
        r.peak_threshold_s() == T::from_ratio_s(2, 5),
        r.shifter_s().wf(),
        r.shifter_s().len_s() == pre_window@.len(),
        forall|i: int|
            0 <= i < pre_window@.len() ==> r.shifter_s().prev_in_s()[i] == T::zero_s()
                && r.shifter_s().prev_out_s()[i] == T::zero_s(),
{
    let window_size: usize = pre_window.len();
    let fft = Fft::new(window_size);
    let shifter = pitch_shifter(window_size);
    let sample_rate_t = T::from_usize_f(sample_rate as usize);
    let min_wavelength = sample_rate_t.div_f(T::from_ratio_f(2200, 1));
    let peak_threshold = T::from_ratio_f(2, 5);
    PitchCorrectEffect {
        fft,
        pre_window,
        post_window,
        slide_size,
        sample_rate: sample_rate_t,
        min_wavelength,
        peak_threshold,
        pitch_fn,
        shifter,
    }
}

impl<T: Float, F: PitchFn<T>> FrameProcessor<T> for PitchCorrectEffect<T, F> {
    open spec fn accepts_s(&self, len: int) -> bool {
        self.wf() && len == self.window_size_s()
    }

    open spec fn deterministic_s(&self) -> bool {
        false
    }

    open spec fn steps_s(&self, frame: Seq<T>, next: Self) -> bool {
        &&& next.wf()
        &&& next.pre_window_s() == self.pre_window_s()
        &&& next.post_window_s() == self.post_window_s()
        &&& next.slide_size_s() == self.slide_size_s()
        &&& next.sample_rate_s() == self.sample_rate_s()
        &&& next.min_wavelength_s() == self.min_wavelength_s()
        &&& next.peak_threshold_s() == self.peak_threshold_s()
        &&& exists|p: T|
            shifter_stepped_s(
                self.shifter_s(),
                analyzed_s(self.pre_window_s(), frame),
                p,
                self.slide_size_s(),
                next.shifter_s(),
            )
    }

    fn process_frame(&mut self, frame: &[T]) -> (r: Vec<T>)
        ensures
            correct_detect_s(frame@, old(self).min_wavelength_s(), old(self).peak_threshold_s())
                is None ==> r@ == resynthesized_s(
                shifted_spectrum_s(
                    old(self).shifter_s().prev_in_s(),
                    old(self).shifter_s().prev_out_s(),
                    analyzed_s(old(self).pre_window_s(), frame@),
                    T::zero_s(),
                    old(self).slide_size_s(),
                ),
                old(self).post_window_s(),
                old(self).slide_size_s(),
            ),
            exists|p: T|
                r@ == resynthesized_s(
                    shifted_spectrum_s(
                        old(self).shifter_s().prev_in_s(),
                        old(self).shifter_s().prev_out_s(),
                        analyzed_s(old(self).pre_window_s(), frame@),
                        p,
                        old(self).slide_size_s(),
                    ),
                    old(self).post_window_s(),
                    old(self).slide_size_s(),
                ),
            (old(self).pitch_fn_s().deterministic_s() && correct_detect_s(
                frame@,
                old(self).min_wavelength_s(),
                old(self).peak_threshold_s(),
            ) is Some) ==> r@ == resynthesized_s(
                shifted_spectrum_s(
                    old(self).shifter_s().prev_in_s(),
                    old(self).shifter_s().prev_out_s(),
                    analyzed_s(old(self).pre_window_s(), frame@),
                    old(self).pitch_fn_s().model_s(
                        old(self).sample_rate_s().div_s(
                            correct_detect_s(
                                frame@,
                                old(self).min_wavelength_s(),
                                old(self).peak_threshold_s(),
                            ).unwrap().0,
                        ),
                    ),
                    old(self).slide_size_s(),
                ),
                old(self).post_window_s(),
                old(self).slide_size_s(),
            ),
    {
        let slide_size: usize = self.slide_size;

        let nsdf = crate::pitch_detection::compute_nsdf(&self.fft, frame);
        let half: usize = nsdf.len() / 2;
        let mut lower: Vec<T> = Vec::new();
        let mut i: usize = 0;
        while i < half
            invariant
                i <= half,
                half <= nsdf@.len(),
                lower@.len() == i,
                forall|j: int| 0 <= j < i ==> lower@[j] == nsdf@[j],
            decreases half - i,
        {
            lower.push(nsdf[i]);
            i = i + 1;
        }
        proof {
            assert(lower@ =~= nsdf@.take(half as int));
        }
        let all_peaks = crate::pitch_detection::compute_peaks(lower.as_slice());

        let mut peaks: Vec<(T, T)> = Vec::new();
        let mut k: usize = 0;
        while k < all_peaks.len()
            invariant
                k <= all_peaks@.len(),
                peaks@ == retained_peaks_s(all_peaks@.take(k as int), self.min_wavelength),
                *self == *old(self),
            decreases all_peaks@.len() - k,
        {
            let p = all_peaks[k];
            proof {
                assert(all_peaks@.take(k as int + 1).drop_last() =~= all_peaks@.take(k as int));
                assert(all_peaks@.take(k as int + 1).last() == all_peaks@[k as int]);
            }
            if self.min_wavelength.lt_f(p.0) {
                peaks.push(p);
            }
            k = k + 1;
        }
        proof {
            assert(all_peaks@.take(all_peaks@.len() as int) =~= all_peaks@);
        }

        let mut max_peak = T::zero_f();
        let mut m: usize = 0;
        while m < peaks.len()
            invariant
                m <= peaks@.len(),
                max_peak == max_height_s(peaks@.take(m as int)),
            decreases peaks@.len() - m,
        {
            proof {
                assert(peaks@.take(m as int + 1).drop_last() =~= peaks@.take(m as int));
                assert(peaks@.take(m as int + 1).last() == peaks@[m as int]);
            }
            max_peak = max_peak.max_f(peaks[m].1);
            m = m + 1;
        }
        proof {
            assert(peaks@.take(peaks@.len() as int) =~= peaks@);
        }

        let ghost detected = correct_detect_s(frame@, self.min_wavelength, self.peak_threshold);
        let mut pitch = T::zero_f();
        if self.peak_threshold.lt_f(max_peak) {
            let bound = max_peak.mul_f(T::from_ratio_f(9, 10));
            proof {
                assert(detected == first_reaching_s(peaks@, bound, 0));
            }
            let mut sel: Option<(T, T)> = None;
            let mut n: usize = 0;
            while n < peaks.len()
                invariant
                    n <= peaks@.len(),
                    sel is None ==> first_reaching_s(peaks@, bound, 0) == first_reaching_s(
                        peaks@,
                        bound,
                        n as int,
                    ),
                    sel is Some ==> sel == first_reaching_s(peaks@, bound, 0),
                decreases peaks@.len() - n,
            {
                if sel.is_none() {
                    let p = peaks[n];
                    if bound.le_f(p.1) {
                        proof {
                            assert(first_reaching_s(peaks@, bound, n as int) == Some(p));
                        }
                        sel = Some(p);
                    }
                }
                n = n + 1;
            }
            match sel {
                Some(p) => {
                    let freq = self.sample_rate.div_f(p.0);
                    pitch = self.pitch_fn.pitch_of(freq);
                },
                None => {
                    proof {
                        assert(first_reaching_s(peaks@, bound, peaks@.len() as int) is None);
                    }
                },
            }
        }
        proof {
            if detected is None {
                assert(pitch == T::zero_s());
            }
        }

        let mut spec = analyze_frame(&self.fft, self.pre_window.as_slice(), frame);
        crate::pitch_shift::process_spectrum(slide_size, &mut self.shifter, pitch, &mut spec);
        proof {
            assert(spec@ =~= shifted_spectrum_s(
                old(self).shifter.prev_in_s(),
                old(self).shifter.prev_out_s(),
                analyzed_s(old(self).pre_window@, frame@),
                pitch,
                slide_size,
            ));
        }
        let out = resynthesize_frame(&self.fft, self.post_window.as_slice(), slide_size, spec);
        proof {
            assert(shifter_stepped_s(
                old(self).shifter_s(),
                analyzed_s(old(self).pre_window_s(), frame@),
                pitch,
                old(self).slide_size_s(),
                self.shifter_s(),
            ));
            let witness = pitch;
            assert(out@ == resynthesized_s(
                shifted_spectrum_s(
                    old(self).shifter_s().prev_in_s(),
                    old(self).shifter_s().prev_out_s(),
                    analyzed_s(old(self).pre_window_s(), frame@),
                    witness,
                    old(self).slide_size_s(),
                ),
                old(self).post_window_s(),
                old(self).slide_size_s(),
            ));
        }
        out
    }
}

} // verus!
