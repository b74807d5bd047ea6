//! A streaming spectral-domain voice-transformation library.
//!
//! The crate turns a sample stream into overlapping windowed frames,
//! runs spectral effects (a phase-vocoder pitch shifter and a cepstral
//! formant shifter) on each frame, and reassembles the result by
//! windowed overlap-add. It also estimates the fundamental frequency
//! of a frame by a normalized autocorrelation measure.

pub mod api;
pub mod fft;
pub mod float;
pub mod overlapping_flatten;
pub mod pitch_detection;
pub mod pitch_shift;
pub mod ring_buffer;
pub mod transform;
pub mod voice_change;
pub mod windows;

pub use float::Complex;
pub use float::Float;

use vstd::prelude::*;

verus! {

/// The element a sequence holds at `k`, or zero past either end.
pub open spec fn sample_at<T: Float>(buf: Seq<T>, k: int) -> T {
    if 0 <= k < buf.len() {
        buf[k]
    } else {
        T::zero_s()
    }
}

/// Multiplies a buffer elementwise with a window table.
///
/// The result has the length of the shorter of the two.
pub fn apply_window<T: Float>(window: &[T], buf: &[T]) -> (r: Vec<T>)
    ensures
        r@.len() == if window@.len() <= buf@.len() {
            window@.len()
        } else {
            buf@.len()
        },
        forall|i: int| 0 <= i < r@.len() ==> r@[i] == buf@[i].mul_s(window@[i]),
{
    let len: usize = if window.len() <= buf.len() {
        window.len()
    } else {
        buf.len()
    };
    let mut out: Vec<T> = Vec::new();
    let mut i: usize = 0;
    while i < len
        invariant
            i <= len,
            len == if window@.len() <= buf@.len() {
                window@.len()
            } else {
                buf@.len()
            },
            out@.len() == i,
            forall|j: int| 0 <= j < i ==> out@[j] == buf@[j].mul_s(window@[j]),
        decreases len - i,
    {
        out.push(buf[i].mul_f(window[i]));
        i = i + 1;
    }
    out
}

/// Multiplies a buffer elementwise with a window table and a constant
/// gain, in that order.
pub fn apply_window_with_scale<T: Float>(window: &[T], scale: T, buf: &[T]) -> (r: Vec<T>)
    ensures
        r@.len() == if window@.len() <= buf@.len() {
            window@.len()
        } else {
            buf@.len()
        },
        forall|i: int| 0 <= i < r@.len() ==> r@[i] == buf@[i].mul_s(window@[i]).mul_s(scale),
{
    let len: usize = if window.len() <= buf.len() {
        window.len()
    } else {
        buf.len()
    };
    let mut out: Vec<T> = Vec::new();
    let mut i: usize = 0;
    while i < len
        invariant
            i <= len,
            len == if window@.len() <= buf@.len() {
                window@.len()
            } else {
                buf@.len()
            },
            out@.len() == i,
            forall|j: int| 0 <= j < i ==> out@[j] == buf@[j].mul_s(window@[j]).mul_s(scale),
        decreases len - i,
    {
        out.push(buf[i].mul_f(window[i]).mul_f(scale));
        i = i + 1;
    }
    out
}

/// The value of one resampled output sample: a quadratic interpolation
/// read at position `i / rate`, with reads past the end treated as zero.
pub open spec fn resample_at<T: Float>(buf: Seq<T>, rate: T, i: usize) -> T {
    let p = T::from_usize_s(i).div_s(rate);
    let j = p.to_usize_s() as int;
    let x = sample_at(buf, j);
    let y = sample_at(buf, j + 1);
    let z = sample_at(buf, j + 2);
    y.sub_s(x.sub_s(z).mul_s(p.fract_s()).div_s(T::from_ratio_s(4, 1)))
}

/// Resample with quadratic interpolation.
pub fn resample<T: Float>(buf: &[T], rate: T) -> (r: Vec<T>)
    ensures
        r@.len() == T::from_usize_s(buf@.len() as usize).mul_s(rate).ceil_s().to_usize_s(),
        forall|i: int| 0 <= i < r@.len() ==> r@[i] == resample_at(buf@, rate, i as usize),
{
    let out_len: usize = T::from_usize_f(buf.len()).mul_f(rate).ceil_f().to_usize_f();
    let blen: usize = buf.len();
    let mut out: Vec<T> = Vec::new();
    let mut i: usize = 0;
    while i < out_len
        invariant
            i <= out_len,
            blen == buf@.len(),
            out_len == T::from_usize_s(buf@.len() as usize).mul_s(rate).ceil_s().to_usize_s(),
            out@.len() == i,
            forall|k: int| 0 <= k < i ==> out@[k] == resample_at(buf@, rate, k as usize),
        decreases out_len - i,
    {
        let p = T::from_usize_f(i).div_f(rate);
        let j: usize = p.to_usize_f();
        let x = if j < blen {
            buf[j]
        } else {
            T::zero_f()
        };
        let y = if j < blen && j + 1 < blen {
            buf[j + 1]
        } else {
            T::zero_f()
        };
        let z = if j < blen && j + 1 < blen && j + 2 < blen {
            buf[j + 2]
        } else {
            T::zero_f()
        };
        out.push(y.sub_f(x.sub_f(z).mul_f(p.fract_f()).div_f(T::from_ratio_f(4, 1))));
        i = i + 1;
    }
    out
}

} // verus!
