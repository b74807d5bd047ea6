use voiche::api;
use voiche::fft::{fill_right_part_of_spectrum, Fft};
use voiche::overlapping_flatten::OverlappingFlattenTrait;
use voiche::pitch_detection::{compute_peaks, pitch_detect};
use voiche::pitch_shift::{pitch_shifter, wrap_phase};
use voiche::ring_buffer::{OverlappedAddable, RingBuffer};
use voiche::transform::{transform, FrameProcessor, Transformer};
use voiche::voice_change::formant_shift;
use voiche::windows::{
    blackman_window, hamming_window, hann_window, rectangular_window, trapezoid_window,
};
use voiche::{resample, Complex, Float};

/// The library's scalar trait implemented over `f32`, with the
/// spectral transforms provided by rustfft.
#[derive(Clone, Copy, Debug, PartialEq, PartialOrd)]
struct S32(f32);

impl Float for S32 {
    fn zero_f() -> S32 {
        S32(0.0)
    }
    fn one_f() -> S32 {
        S32(1.0)
    }
    fn pi_f() -> S32 {
        S32(std::f32::consts::PI)
    }
    fn tau_f() -> S32 {
        S32(std::f32::consts::TAU)
    }
    fn epsilon_f() -> S32 {
        S32(f32::EPSILON)
    }
    fn add_f(self, other: S32) -> S32 {
        S32(self.0 + other.0)
    }
    fn sub_f(self, other: S32) -> S32 {
        S32(self.0 - other.0)
    }
    fn mul_f(self, other: S32) -> S32 {
        S32(self.0 * other.0)
    }
    fn div_f(self, other: S32) -> S32 {
        S32(self.0 / other.0)
    }
    fn rem_f(self, other: S32) -> S32 {
        S32(self.0 % other.0)
    }
    fn neg_f(self) -> S32 {
        S32(-self.0)
    }
    fn min_f(self, other: S32) -> S32 {
        if self.0 <= other.0 {
            self
        } else {
            other
        }
    }
    fn max_f(self, other: S32) -> S32 {
        if self.0 >= other.0 {
            self
        } else {
            other
        }
    }
    fn lt_f(self, other: S32) -> bool {
        self.0 < other.0
    }
    fn le_f(self, other: S32) -> bool {
        self.0 <= other.0
    }
    fn cos_f(self) -> S32 {
        S32(self.0.cos())
    }
    fn sin_f(self) -> S32 {
        S32(self.0.sin())
    }
    fn ln_f(self) -> S32 {
        S32(self.0.ln())
    }
    fn exp_f(self) -> S32 {
        S32(self.0.exp())
    }
    fn hypot_f(self, other: S32) -> S32 {
        S32(self.0.hypot(other.0))
    }
    fn atan2_f(self, other: S32) -> S32 {
        S32(self.0.atan2(other.0))
    }
    fn round_f(self) -> S32 {
        S32(self.0.round())
    }
    fn floor_f(self) -> S32 {
        S32(self.0.floor())
    }
    fn ceil_f(self) -> S32 {
        S32(self.0.ceil())
    }
    fn fract_f(self) -> S32 {
        S32(self.0.fract())
    }
    fn from_usize_f(n: usize) -> S32 {
        S32(n as f32)
    }
    fn from_ratio_f(num: i64, den: i64) -> S32 {
        S32(num as f32 / den as f32)
    }
    fn to_usize_f(self) -> usize {
        self.0 as usize
    }
    fn fft_forward_f(buffer: &mut Vec<Complex<S32>>) {
        let mut buf: Vec<rustfft::num_complex::Complex<f32>> = buffer
            .iter()
            .map(|c| rustfft::num_complex::Complex::new(c.re.0, c.im.0))
            .collect();
        rustfft::FftPlanner::new()
            .plan_fft_forward(buf.len())
            .process(&mut buf);
        for (dst, src) in buffer.iter_mut().zip(buf.iter()) {
            dst.re = S32(src.re);
            dst.im = S32(src.im);
        }
    }
    fn fft_inverse_f(buffer: &mut Vec<Complex<S32>>) {
        let mut buf: Vec<rustfft::num_complex::Complex<f32>> = buffer
            .iter()
            .map(|c| rustfft::num_complex::Complex::new(c.re.0, c.im.0))
            .collect();
        rustfft::FftPlanner::new()
            .plan_fft_inverse(buf.len())
            .process(&mut buf);
        for (dst, src) in buffer.iter_mut().zip(buf.iter()) {
            dst.re = S32(src.re);
            dst.im = S32(src.im);
        }
    }
}

fn s(values: &[f32]) -> Vec<S32> {
    values.iter().map(|&x| S32(x)).collect()
}

fn raw(values: &[S32]) -> Vec<f32> {
    values.iter().map(|x| x.0).collect()
}

fn assert_close(got: &[f32], want: &[f32], tolerance: f32) {
    assert_eq!(got.len(), want.len());
    for i in 0..got.len() {
        assert!(
            (got[i] - want[i]).abs() <= tolerance,
            "index {}: got {} want {}",
            i,
            got[i],
            want[i]
        );
    }
}

/// A frame processor that hands every frame back unchanged.
struct Identity;

impl FrameProcessor<S32> for Identity {
    fn process_frame(&mut self, frame: &[S32]) -> Vec<S32> {
        frame.to_vec()
    }
}

/// A frame processor that windows the frame on the way in and out,
/// with the overlap-add gain, but leaves the content alone.
struct WindowedIdentity {
    pre: Vec<S32>,
    post: Vec<S32>,
    scale: f32,
}

impl FrameProcessor<S32> for WindowedIdentity {
    fn process_frame(&mut self, frame: &[S32]) -> Vec<S32> {
        (0..frame.len())
            .map(|i| S32(frame[i].0 * self.pre[i].0 * self.post[i].0 * self.scale))
            .collect()
    }
}

#[test]
fn test() {
    println!("{:?}", trapezoid_window::<S32>(8, 0));
    println!("{:?}", trapezoid_window::<S32>(8, 3));
    println!("{:?}", trapezoid_window::<S32>(8, 4));
    println!("{:?}", trapezoid_window::<S32>(8, 5));

    println!("{:?}", hann_window::<S32>(10));
    println!("{:?}", hamming_window::<S32>(10));
    println!("{:?}", blackman_window::<S32>(S32(0.16), 10));
}

#[test]
fn window_values() {
    let hann = raw(&hann_window::<S32>(4));
    assert_close(&hann, &[0.0, 0.5, 1.0, 0.5], 1e-6);

    let rect = raw(&rectangular_window::<S32>(5));
    assert_close(&rect, &[1.0; 5], 0.0);

    let trapezoid = raw(&trapezoid_window::<S32>(8, 3));
    assert_close(&trapezoid, &[0.25, 0.5, 0.75, 1.0, 1.0, 0.75, 0.5, 0.25], 1e-6);

    let hamming = raw(&hamming_window::<S32>(4));
    let a = 25.0f32 / 46.0;
    assert_close(&hamming, &[a - (1.0 - a), a, a + (1.0 - a), a], 1e-6);
}

#[test]
fn overlap_add_identity() {
    // Analysis window flat, synthesis window Hann, hop a quarter of the
    // window: the overlapped windows sum to a constant that the output
    // gain cancels, so the engine reproduces its input.
    let window_size = 32;
    let slide = 8;
    let pre = rectangular_window::<S32>(window_size);
    let post = hann_window::<S32>(window_size);
    let post_sum: f32 = post.iter().map(|x| x.0).sum();
    let scale = slide as f32 / post_sum;

    for input in [
        vec![0.5f32; 100],
        (0..100).map(|i| i as f32 / 100.0).collect::<Vec<f32>>(),
        (0..100)
            .map(|i| (i as f32 * std::f32::consts::TAU / 10.0).sin())
            .collect::<Vec<f32>>(),
    ] {
        let processor = WindowedIdentity {
            pre: pre.clone(),
            post: post.clone(),
            scale,
        };
        let mut transformer = Transformer::new(window_size, slide, processor);
        transformer.input_slice(&s(&input));
        transformer.process();
        let mut out: Vec<S32> = Vec::new();
        transformer.finish(&mut out);
        assert_close(&raw(&out), &input, 1e-3);
    }
}

#[test]
fn exact_sample_count() {
    let mut transformer = Transformer::new(8, 4, Identity);
    transformer.input_slice(&s(&vec![0.25f32; 123]));
    transformer.process();
    let mut out: Vec<S32> = Vec::new();
    transformer.finish(&mut out);
    assert_eq!(out.len(), 123);
}

#[test]
fn exact_sample_count_with_draining() {
    let mut transformer = Transformer::new(8, 4, Identity);
    let mut total = 0;
    for chunk in 0..10 {
        transformer.input_slice(&s(&vec![0.1f32 * chunk as f32; 13]));
        transformer.process();
        let mut out = s(&[0.0; 8]);
        while transformer.output_slice_exact(&mut out) {
            total += out.len();
        }
    }
    let mut rest: Vec<S32> = Vec::new();
    transformer.finish(&mut rest);
    total += rest.len();
    assert_eq!(total, 130);
}

#[test]
fn output_not_ready_leaves_buffer() {
    let mut transformer = Transformer::new(8, 4, Identity);
    transformer.input_slice(&s(&[1.0, 2.0, 3.0]));
    transformer.process();
    let mut out = s(&[7.0; 8]);
    assert!(!transformer.output_slice_exact(&mut out));
    assert_eq!(raw(&out), vec![7.0; 8]);
}

#[test]
fn hermitian_symmetry_after_mirror() {
    let mut spectrum: Vec<Complex<S32>> = (0..8)
        .map(|i| Complex {
            re: S32(i as f32 * 0.3 - 1.0),
            im: S32(1.0 - i as f32 * 0.2),
        })
        .collect();
    let kept: Vec<(f32, f32)> = spectrum.iter().map(|c| (c.re.0, c.im.0)).collect();
    fill_right_part_of_spectrum(&mut spectrum);
    for i in 1..4 {
        assert_eq!(spectrum[8 - i].re.0, spectrum[i].re.0);
        assert_eq!(spectrum[8 - i].im.0, -spectrum[i].im.0);
    }
    for i in 0..5 {
        assert_eq!(spectrum[i].re.0, kept[i].0);
        assert_eq!(spectrum[i].im.0, kept[i].1);
    }
}

#[test]
fn forward_transform_of_impulse_is_flat() {
    // Would fail if the transform handed its input back unchanged.
    let fft: Fft<S32> = Fft::new(8);
    let mut buf: Vec<Complex<S32>> = (0..8)
        .map(|i| Complex {
            re: S32(if i == 0 { 1.0 } else { 0.0 }),
            im: S32(0.0),
        })
        .collect();
    fft.forward(&mut buf);
    for c in &buf {
        assert!((c.re.0 - 1.0).abs() < 1e-5);
        assert!(c.im.0.abs() < 1e-5);
    }
}

#[test]
fn pitch_ratio_one_preserves_magnitudes_and_phase_steps() {
    let n = 32;
    let bin = 4;
    let hop = 8;
    let fft: Fft<S32> = Fft::new(n);

    // Two successive frames of one steady sinusoid at a bin center.
    let frame = |start: usize| -> Vec<Complex<S32>> {
        (0..n)
            .map(|i| {
                let t = (start + i) as f32;
                Complex {
                    re: S32((std::f32::consts::TAU * bin as f32 * t / n as f32).cos()),
                    im: S32(0.0),
                }
            })
            .collect()
    };

    let mut spec1 = frame(0);
    fft.forward(&mut spec1);
    let mut spec2 = frame(hop);
    fft.forward(&mut spec2);

    let mut shifter = pitch_shifter::<S32>(n);
    let out1 = shifter.process(&spec1, S32(1.0), hop);
    let out2 = shifter.process(&spec2, S32(1.0), hop);

    // Magnitudes unchanged by a unit ratio.
    for i in 0..=n / 2 {
        let want = spec1[i].norm().0;
        let got = out1[i].norm().0;
        assert!((got - want).abs() <= 1e-3 * (1.0 + want), "bin {}", i);
    }

    // The output phase advances by the same amount as the input phase
    // at the sinusoid's bin, mod one turn.
    let tau = std::f32::consts::TAU;
    let diff_in = (spec2[bin].arg().0 - spec1[bin].arg().0).rem_euclid(tau);
    let diff_out = (out2[bin].arg().0 - out1[bin].arg().0).rem_euclid(tau);
    let mut delta = (diff_in - diff_out).abs();
    if delta > tau / 2.0 {
        delta = tau - delta;
    }
    assert!(delta < 1e-2, "phase advance in {} out {}", diff_in, diff_out);
}

fn run_pitch_shift(input: &[f32], window_size: usize, slide: usize, ratio: f32) -> Vec<f32> {
    let pre = hann_window::<S32>(window_size);
    let post = trapezoid_window::<S32>(window_size, window_size - slide);
    let effect = api::pitch_shift(pre, post, slide, S32(ratio));
    let mut transformer = Transformer::new(window_size, slide, effect);
    transformer.input_slice(&s(input));
    transformer.process();
    let mut out: Vec<S32> = Vec::new();
    transformer.finish(&mut out);
    raw(&out)
}

fn detect_wavelength(signal: &[f32], window_size: usize) -> Option<(f32, f32)> {
    let fft: Fft<S32> = Fft::new(window_size);
    let window = hann_window::<S32>(window_size);
    let start = signal.len() / 2;
    let frame = s(&signal[start..start + window_size]);
    pitch_detect(&fft, &window, &frame, S32(4.0), S32(0.4)).map(|(w, c)| (w.0, c.0))
}

#[test]
fn round_trip_restores_pitch() {
    let wavelength = 20.0f32;
    let input: Vec<f32> = (0..4096)
        .map(|i| (i as f32 * std::f32::consts::TAU / wavelength).sin())
        .collect();

    let ratio = 1.25f32;
    let up = run_pitch_shift(&input, 256, 64, ratio);
    let back = run_pitch_shift(&up, 256, 64, 1.0 / ratio);

    // The peak scan reports the left shoulder of the fitted lobe, one
    // sample below the period; compare against that convention.
    let (detected, _confidence) = detect_wavelength(&back, 256).expect("pitch detected");
    assert!(
        (detected + 1.0 - wavelength).abs() / wavelength < 0.05,
        "detected {}",
        detected
    );

    // The upward shift itself must move the pitch, or the round trip
    // proves nothing.
    let (shifted, _) = detect_wavelength(&up, 256).expect("pitch detected");
    assert!(
        (shifted + 1.0 - wavelength / ratio).abs() / (wavelength / ratio) < 0.08,
        "shifted {}",
        shifted
    );
}

#[test]
fn detector_on_pure_tone() {
    let n = 512;
    let wavelength = 32.0f32;
    let signal: Vec<f32> = (0..n)
        .map(|i| (i as f32 * std::f32::consts::TAU / wavelength).sin())
        .collect();
    let fft: Fft<S32> = Fft::new(n);
    let window = hann_window::<S32>(n);
    let (w, confidence) = pitch_detect(&fft, &window, &s(&signal), S32(4.0), S32(0.4))
        .expect("tone detected");
    // The scan stores each candidate's lag from the left sample of the
    // fitted triple, one below the lobe's center: the detected value
    // sits within a sample of `wavelength - 1`.
    assert!((w.0 - (wavelength - 1.0)).abs() <= 1.0, "wavelength {}", w.0);
    assert!(confidence.0 > 0.9, "confidence {}", confidence.0);
}

#[test]
fn detector_on_silence() {
    let n = 256;
    let fft: Fft<S32> = Fft::new(n);
    let window = hann_window::<S32>(n);
    let silent = s(&vec![0.0f32; n]);
    assert!(pitch_detect(&fft, &window, &silent, S32(4.0), S32(0.4)).is_none());
}

#[test]
fn formant_ratio_one_is_identity() {
    let envelope = s(&[
        -1.0, -0.5, 0.25, 1.5, -2.0, 0.75, 0.1, -0.3, 2.5, -1.25, 0.0, 0.6, -0.9, 1.1, -0.2, 0.4,
    ]);
    let shifted = formant_shift(&envelope, S32(1.0));
    assert_eq!(shifted.len(), envelope.len());
    for i in 0..=envelope.len() / 2 {
        assert_eq!(shifted[i].0, envelope[i].0, "bin {}", i);
    }
    for i in 1..envelope.len() / 2 {
        assert_eq!(shifted[envelope.len() - i].0, shifted[i].0);
    }
}

#[test]
fn formant_shift_interpolates() {
    // Ratio two reads the envelope at half speed: output bin 2 reads
    // input bin 1, output bin 3 the midpoint of bins 1 and 2.
    let envelope = s(&[0.0, 1.0, 2.0, 3.0, 4.0, 3.0, 2.0, 1.0]);
    let shifted = formant_shift(&envelope, S32(2.0));
    assert!((shifted[2].0 - 1.0).abs() < 1e-6);
    assert!((shifted[3].0 - 1.5).abs() < 1e-6);
}

#[test]
fn voice_change_runs_and_keeps_count() {
    let input: Vec<f32> = (0..2000)
        .map(|i| (i as f32 * std::f32::consts::TAU / 25.0).sin())
        .collect();
    let window_size = 256;
    let slide = 64;
    let pre = hann_window::<S32>(window_size);
    let post = trapezoid_window::<S32>(window_size, window_size - slide);
    let effect = api::voice_change(pre, post, slide, window_size / 8, S32(0.8), S32(1.2));
    let mut transformer = Transformer::new(window_size, slide, effect);
    transformer.input_slice(&s(&input));
    transformer.process();
    let mut out: Vec<S32> = Vec::new();
    transformer.finish(&mut out);
    assert_eq!(out.len(), input.len());
    assert!(out.iter().any(|x| x.0.abs() > 1e-4));
}

/// A tuning rule that leaves every detected frequency alone.
struct UnitPitch;

impl api::PitchFn<S32> for UnitPitch {
    fn pitch_of(&mut self, _freq: S32) -> S32 {
        S32(1.0)
    }
}

#[test]
fn pitch_correct_runs_and_keeps_count() {
    let input: Vec<f32> = (0..1500)
        .map(|i| (i as f32 * std::f32::consts::TAU / 30.0).sin())
        .collect();
    let window_size = 256;
    let slide = 64;
    let pre = hann_window::<S32>(window_size);
    let post = trapezoid_window::<S32>(window_size, window_size - slide);
    let effect = api::pitch_correct(pre, post, slide, 44100, UnitPitch);
    let mut transformer = Transformer::new(window_size, slide, effect);
    transformer.input_slice(&s(&input));
    transformer.process();
    let mut out: Vec<S32> = Vec::new();
    transformer.finish(&mut out);
    assert_eq!(out.len(), input.len());
}

#[test]
fn transform_batch_length() {
    let mut identity = Identity;
    let out = transform(8, 4, &mut identity, &s(&vec![1.0f32; 10]));
    // Three frames at offsets 0, 4 and 8: the output spans the last
    // frame's full window.
    assert_eq!(out.len(), 8 + 4 * 2);
    let empty = transform(8, 4, &mut identity, &s(&[]));
    assert!(empty.is_empty());
}

#[test]
fn resample_values() {
    let out = raw(&resample(&s(&[1.0, 2.0, 3.0, 4.0]), S32(2.0)));
    let want = [2.0, 2.25, 3.0, 3.25, 4.0, 3.625, 0.0, -0.5];
    assert_close(&out, &want, 1e-6);
}

#[test]
fn wrap_phase_wraps() {
    let tau = std::f32::consts::TAU;
    assert!((wrap_phase(S32(2.5 * std::f32::consts::PI)).0 - 0.5 * std::f32::consts::PI).abs() < 1e-6);
    assert!((wrap_phase(S32(-2.5 * std::f32::consts::PI)).0 + 0.5 * std::f32::consts::PI).abs() < 1e-6);
    assert!((wrap_phase(S32(tau)).0).abs() < 1e-6);
}

#[test]
fn ring_buffer_basics() {
    let mut rb: RingBuffer<i32> = RingBuffer::new(4, 0);
    assert_eq!(rb.capacity(), 4);
    assert!(rb.is_empty());
    assert!(rb.write(&[1, 2, 3]));
    assert_eq!(rb.num_readable(), 3);
    assert_eq!(rb.num_writable(), 1);
    assert!(!rb.write(&[4, 5]));
    assert!(rb.write(&[4]));
    assert!(rb.is_full());

    let mut out = vec![0; 2];
    assert!(rb.read(&mut out));
    assert_eq!(out, vec![1, 2]);
    // Reading does not consume.
    assert_eq!(rb.num_readable(), 4);
    assert!(rb.discard(2));
    assert_eq!(rb.num_readable(), 2);

    // Wrap around the backing buffer.
    assert!(rb.write(&[5, 6]));
    let mut all = vec![0; 4];
    assert!(rb.read(&mut all));
    assert_eq!(all, vec![3, 4, 5, 6]);

    let mut too_much = vec![0; 5];
    assert!(!rb.read(&mut too_much));

    rb.discard_all();
    assert!(rb.is_empty());
}

#[test]
fn ring_buffer_fill() {
    let mut rb: RingBuffer<i32> = RingBuffer::new(5, 0);
    assert!(rb.write(&[9, 9, 9, 9]));
    assert!(rb.discard(3));
    // The fill wraps around the end of the backing buffer.
    assert!(rb.fill(3, 7));
    let mut out = vec![0; 4];
    assert!(rb.read(&mut out));
    assert_eq!(out, vec![9, 7, 7, 7]);
    assert!(!rb.fill(2, 8));
}

#[test]
fn ring_buffer_overlap_add() {
    let mut rb: RingBuffer<S32> = RingBuffer::new(8, S32(0.0));
    assert!(rb.write(&s(&[1.0, 2.0, 3.0])));
    assert!(rb.overlap_add(&s(&[10.0, 20.0, 30.0, 40.0]), 2));
    let mut out = s(&[0.0; 5]);
    assert!(rb.read(&mut out));
    assert_close(&raw(&out), &[1.0, 12.0, 23.0, 30.0, 40.0], 1e-6);

    // Not enough readable samples to overlap with.
    let mut empty: RingBuffer<S32> = RingBuffer::new(8, S32(0.0));
    assert!(!empty.overlap_add(&s(&[1.0, 2.0]), 1));
}

#[test]
fn peak_scan_finds_interpolated_peak() {
    // One clean lobe after a negative crossing: a single candidate,
    // fitted exactly at the symmetric maximum.
    let nsdf = s(&[0.0, -1.0, 0.1, 0.5, 0.1, -1.0, 0.0, 0.0]);
    let peaks = compute_peaks(&nsdf);
    assert_eq!(peaks.len(), 1);
    assert!((peaks[0].0 .0 - 2.0).abs() < 1e-6);
    assert!((peaks[0].1 .0 - 0.5).abs() < 1e-6);
}

#[test]
fn peak_scan_skips_first_lobe() {
    // The lobe before the first negative crossing is never collected.
    let nsdf = s(&[0.0, 0.1, 0.5, 0.1, -1.0, 0.0, 0.0, 0.0]);
    let peaks = compute_peaks(&nsdf);
    assert!(peaks.is_empty());
}

#[test]
fn overlapping_flatten_streams() {
    let frames: Vec<Vec<S32>> = vec![s(&[1.0, 2.0, 3.0]), s(&[4.0, 5.0, 6.0])];
    let mut flat = frames.overlapping_flatten(1);
    let mut got: Vec<f32> = Vec::new();
    while let Some(x) = flat.next() {
        got.push(x.0);
    }
    // The second frame's head is summed onto the first frame's tail;
    // the final overlap stays in reserve.
    assert_eq!(got, vec![1.0, 2.0, 7.0, 5.0]);
}
