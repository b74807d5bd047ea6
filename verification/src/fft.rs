use vstd::prelude::*;

use crate::float::{conj_s, Complex, Float};

verus! {

/// A forward/inverse transform pair of one fixed size.
///
/// Both directions are unnormalized, so a forward transform followed by
/// an inverse transform scales the signal by the size; call sites apply
/// [`fix_scale`] after every inverse transform before reading real values.
pub struct Fft<T: Float> {
    size: usize,
    marker: core::marker::PhantomData<T>,
}

impl<T: Float> Fft<T> {
    /// The planned transform length.
    pub closed spec fn size_s(&self) -> usize {
        self.size
    }

    pub fn new(size: usize) -> (r: Self)
        ensures
            r.size_s() == size,
    {
        Fft { size, marker: core::marker::PhantomData }
    }

    pub fn size(&self) -> (r: usize)
        ensures
            r == self.size_s(),
    {
        self.size
    }
}

impl<T: Float> Fft<T> {
    /// In-place unnormalized forward transform of one frame.
    pub fn forward(&self, buffer: &mut Vec<Complex<T>>)
        requires
            old(buffer)@.len() == self.size_s(),
        ensures
            final(buffer)@ == T::fft_fwd_s(old(buffer)@),
            final(buffer)@.len() == old(buffer)@.len(),
    {
        T::fft_forward_f(buffer);
    }

    /// In-place unnormalized inverse transform of one frame.
    pub fn inverse(&self, buffer: &mut Vec<Complex<T>>)
        requires
            old(buffer)@.len() == self.size_s(),
        ensures
            final(buffer)@ == T::fft_inv_s(old(buffer)@),
            final(buffer)@.len() == old(buffer)@.len(),
    {
        T::fft_inverse_f(buffer);
    }
}

/// Rescales a buffer by `1/len`, undoing the factor of `len` that a
/// forward plus unnormalized inverse transform introduces.
pub fn fix_scale<T: Float>(buf: &mut Vec<Complex<T>>)
    ensures
        final(buf)@.len() == old(buf)@.len(),
        forall|i: int|
            0 <= i < final(buf)@.len() ==> final(buf)@[i] == (Complex {
                re: old(buf)@[i].re.mul_s(T::one_s().div_s(T::from_usize_s(old(buf)@.len() as usize))),
                im: old(buf)@[i].im.mul_s(T::one_s().div_s(T::from_usize_s(old(buf)@.len() as usize))),
            }),
{
    let len: usize = buf.len();
    let scale = T::one_f().div_f(T::from_usize_f(len));
    let mut i: usize = 0;
    while i < len
        invariant
            len == buf@.len(),
            i <= len,
            scale == T::one_s().div_s(T::from_usize_s(len)),
            forall|j: int|
                0 <= j < i ==> buf@[j] == (Complex {
                    re: old(buf)@[j].re.mul_s(scale),
                    im: old(buf)@[j].im.mul_s(scale),
                }),
            forall|j: int| i <= j < len ==> buf@[j] == old(buf)@[j],
        decreases len - i,
    {
        let x = buf[i].scale(scale);
        buf.set(i, x);
        i = i + 1;
    }
}

/// Sets `spectrum[len - i]` to the conjugate of `spectrum[i]` for `i` in
/// `1..len/2`, restoring Hermitian symmetry after an edit confined to the
/// bins `0..=len/2`. Bins `0..=len/2` themselves are left untouched.
pub fn fill_right_part_of_spectrum<T: Float>(spectrum: &mut Vec<Complex<T>>)
    ensures
        final(spectrum)@.len() == old(spectrum)@.len(),
        forall|i: int|
            0 <= i <= old(spectrum)@.len() / 2 && i < old(spectrum)@.len() ==> final(spectrum)@[i]
                == old(spectrum)@[i],
        forall|i: int|
            1 <= i < old(spectrum)@.len() / 2 ==> final(spectrum)@[old(spectrum)@.len() - i]
                == conj_s(#[trigger] old(spectrum)@[i]),
        forall|i: int|
            1 <= i < old(spectrum)@.len() / 2 ==> final(spectrum)@[old(spectrum)@.len() - i]
                == conj_s(#[trigger] final(spectrum)@[i]),
        forall|i: int|
            old(spectrum)@.len() / 2 < i < old(spectrum)@.len() && old(spectrum)@.len() - i
                >= old(spectrum)@.len() / 2 ==> final(spectrum)@[i] == old(spectrum)@[i],
{
    let len: usize = spectrum.len();
    let mut i: usize = 1;
    while i < len / 2
        invariant
            len == spectrum@.len(),
            1 <= i,
            i <= len / 2 || i == 1,
            forall|j: int| 0 <= j <= len / 2 && j < len ==> spectrum@[j] == old(spectrum)@[j],
            forall|k: int|
                len - i < k < len && len / 2 < k ==> spectrum@[k] == conj_s(old(spectrum)@[len - k]),
            forall|k: int| len / 2 < k <= len - i && k < len ==> spectrum@[k] == old(spectrum)@[k],
        decreases len / 2 - i,
    {
        let x = spectrum[i].conj();
        spectrum.set(len - i, x);
        i = i + 1;
    }
}

} // verus!
