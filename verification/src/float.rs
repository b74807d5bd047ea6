use vstd::prelude::*;

verus! {

/// A complex number over the scalar type `T`, used for spectra.
///
/// Spectra are sequences of `Complex<T>` of the frame length; only the
/// bins `0..=len/2` are independently meaningful for real signals, the
/// upper half being the conjugate mirror of the lower half.
pub struct Complex<T> {
    pub re: T,
    pub im: T,
}

impl<T: Copy> Clone for Complex<T> {
    fn clone(&self) -> (r: Self)
        ensures
            r == *self,
    {
        Complex { re: self.re, im: self.im }
    }
}

impl<T: Copy> Copy for Complex<T> {}

/// The scalar type of the signal pipeline.
///
/// Every sample, window gain, magnitude and phase in this crate is a value
/// of a type implementing this trait.  The trait plays the role that a
/// floating-point bound plays in an ordinary signal-processing crate: it
/// names the arithmetic, transcendental and conversion operations the
/// algorithms need, and nothing else.
///
/// Each executable operation `op_f` is specified against an abstract
/// per-implementation spec function `op_s`, so that the algorithms above it
/// can be given exact contracts: the result of every pipeline stage is
/// pinned, bin by bin, as an expression over these spec functions.
///
/// This crate itself implements the trait for no type, because the scalar
/// types it is meant for are machine floating-point types, which proofs
/// cannot inspect.  An implementation is an assumption of this library:
/// every contract clause below must hold of it.  For the IEEE types the
/// clauses hold, with two well-known caveats: the two zeros compare equal
/// but are distinct bit patterns (which is why the identities below conclude
/// `is_zero_s` rather than equality with `zero_s()`), and values that are
/// not numbers (NaN) are excluded by the `is_finite_s` guards.
///
/// The forward and inverse spectral transforms are operations of the
/// trait as well: which transform plan a scalar type runs is part of
/// what the type provides, and the contracts name its results.
///
/// The spec functions carry default bodies that leave their values
/// unconstrained, so that an implementation written outside the
/// verifier provides only the executable operations; nothing in this
/// crate depends on the defaults.
pub trait Float: Sized + Copy {
    /// Model of the additive identity.
    open spec fn zero_s() -> Self {
        arbitrary()
    }

    /// Model of the multiplicative identity.
    open spec fn one_s() -> Self {
        arbitrary()
    }

    /// Model of the circle constant pi.
    open spec fn pi_s() -> Self {
        arbitrary()
    }

    /// Model of the circle constant tau = 2 pi.
    open spec fn tau_s() -> Self {
        arbitrary()
    }

    /// Model of a small positive constant used to avoid log(0) and 0/0.
    open spec fn epsilon_s() -> Self {
        arbitrary()
    }

    open spec fn add_s(self, other: Self) -> Self {
        arbitrary()
    }

    open spec fn sub_s(self, other: Self) -> Self {
        arbitrary()
    }

    open spec fn mul_s(self, other: Self) -> Self {
        arbitrary()
    }

    open spec fn div_s(self, other: Self) -> Self {
        arbitrary()
    }

    open spec fn rem_s(self, other: Self) -> Self {
        arbitrary()
    }

    open spec fn neg_s(self) -> Self {
        arbitrary()
    }

    open spec fn min_s(self, other: Self) -> Self {
        arbitrary()
    }

    open spec fn max_s(self, other: Self) -> Self {
        arbitrary()
    }

    /// Model of the strict order. Not assumed total: on IEEE types it is not.
    open spec fn lt_s(self, other: Self) -> bool {
        arbitrary()
    }

    open spec fn le_s(self, other: Self) -> bool {
        arbitrary()
    }

    open spec fn cos_s(self) -> Self {
        arbitrary()
    }

    open spec fn sin_s(self) -> Self {
        arbitrary()
    }

    open spec fn ln_s(self) -> Self {
        arbitrary()
    }

    open spec fn exp_s(self) -> Self {
        arbitrary()
    }

    open spec fn hypot_s(self, other: Self) -> Self {
        arbitrary()
    }

    open spec fn atan2_s(self, other: Self) -> Self {
        arbitrary()
    }

    open spec fn round_s(self) -> Self {
        arbitrary()
    }

    open spec fn floor_s(self) -> Self {
        arbitrary()
    }

    open spec fn ceil_s(self) -> Self {
        arbitrary()
    }

    open spec fn fract_s(self) -> Self {
        arbitrary()
    }

    open spec fn from_usize_s(n: usize) -> Self {
        arbitrary()
    }

    open spec fn from_ratio_s(num: i64, den: i64) -> Self {
        arbitrary()
    }

    /// Model of the saturating, truncating conversion back to `usize`.
    open spec fn to_usize_s(self) -> usize {
        arbitrary()
    }

    /// Whether the value is an ordinary finite number.
    open spec fn is_finite_s(self) -> bool {
        arbitrary()
    }

    /// Whether the value is a zero (IEEE types have two of them).
    open spec fn is_zero_s(self) -> bool {
        arbitrary()
    }

    /// The largest count that converts to `Self` and back without loss.
    open spec fn max_exact_s() -> usize {
        arbitrary()
    }

    /// What the in-place unnormalized forward transform of the
    /// implementation's transform plan returns, as a function of the
    /// buffer contents alone.
    open spec fn fft_fwd_s(input: Seq<Complex<Self>>) -> Seq<Complex<Self>> {
        arbitrary()
    }

    /// What the in-place unnormalized inverse transform returns.
    open spec fn fft_inv_s(input: Seq<Complex<Self>>) -> Seq<Complex<Self>> {
        arbitrary()
    }

    fn zero_f() -> (r: Self)
        ensures
            r == Self::zero_s(),
            Self::zero_s().is_zero_s(),
            Self::zero_s().is_finite_s(),
    ;

    fn one_f() -> (r: Self)
        ensures
            r == Self::one_s(),
            Self::one_s().is_finite_s(),
            !Self::one_s().is_zero_s(),
    ;

    fn pi_f() -> (r: Self)
        ensures
            r == Self::pi_s(),
    ;

    fn tau_f() -> (r: Self)
        ensures
            r == Self::tau_s(),
    ;

    fn epsilon_f() -> (r: Self)
        ensures
            r == Self::epsilon_s(),
    ;

    fn add_f(self, other: Self) -> (r: Self)
        ensures
            r == self.add_s(other),
            other.is_zero_s() && self.is_finite_s() ==> (r == self || (self.is_zero_s()
                && r.is_zero_s())),
    ;

    fn sub_f(self, other: Self) -> (r: Self)
        ensures
            r == self.sub_s(other),
            other == self && self.is_finite_s() ==> r.is_zero_s(),
            other.is_zero_s() && self.is_finite_s() ==> (r == self || (self.is_zero_s()
                && r.is_zero_s())),
    ;

    fn mul_f(self, other: Self) -> (r: Self)
        ensures
            r == self.mul_s(other),
            self == Self::one_s() && other.is_finite_s() ==> r == other,
            other == Self::one_s() && self.is_finite_s() ==> r == self,
            self.is_zero_s() && other.is_finite_s() ==> r.is_zero_s(),
            other.is_zero_s() && self.is_finite_s() ==> r.is_zero_s(),
    ;

    fn div_f(self, other: Self) -> (r: Self)
        ensures
            r == self.div_s(other),
            other == Self::one_s() && self.is_finite_s() ==> r == self,
    ;

    fn rem_f(self, other: Self) -> (r: Self)
        ensures
            r == self.rem_s(other),
    ;

    fn neg_f(self) -> (r: Self)
        ensures
            r == self.neg_s(),
    ;

    fn min_f(self, other: Self) -> (r: Self)
        ensures
            r == self.min_s(other),
            r == self || r == other,
    ;

    fn max_f(self, other: Self) -> (r: Self)
        ensures
            r == self.max_s(other),
            r == self || r == other,
    ;

    fn lt_f(self, other: Self) -> (r: bool)
        ensures
            r == self.lt_s(other),
    ;

    fn le_f(self, other: Self) -> (r: bool)
        ensures
            r == self.le_s(other),
    ;

    fn cos_f(self) -> (r: Self)
        ensures
            r == self.cos_s(),
    ;

    fn sin_f(self) -> (r: Self)
        ensures
            r == self.sin_s(),
    ;

    fn ln_f(self) -> (r: Self)
        ensures
            r == self.ln_s(),
    ;

    fn exp_f(self) -> (r: Self)
        ensures
            r == self.exp_s(),
    ;

    fn hypot_f(self, other: Self) -> (r: Self)
        ensures
            r == self.hypot_s(other),
    ;

    fn atan2_f(self, other: Self) -> (r: Self)
        ensures
            r == self.atan2_s(other),
    ;

    fn round_f(self) -> (r: Self)
        ensures
            r == self.round_s(),
    ;

    fn floor_f(self) -> (r: Self)
        ensures
            r == self.floor_s(),
    ;

    fn ceil_f(self) -> (r: Self)
        ensures
            r == self.ceil_s(),
    ;

    fn fract_f(self) -> (r: Self)
        ensures
            r == self.fract_s(),
    ;

    fn from_usize_f(n: usize) -> (r: Self)
        ensures
            r == Self::from_usize_s(n),
            Self::from_usize_s(n).is_finite_s(),
            n <= Self::max_exact_s() ==> Self::from_usize_s(n).floor_s() == Self::from_usize_s(n),
            n <= Self::max_exact_s() ==> Self::from_usize_s(n).round_s() == Self::from_usize_s(n),
            n <= Self::max_exact_s() ==> Self::from_usize_s(n).to_usize_s() == n,
    ;

    fn from_ratio_f(num: i64, den: i64) -> (r: Self)
        ensures
            r == Self::from_ratio_s(num, den),
            den != 0 ==> Self::from_ratio_s(num, den).is_finite_s(),
    ;

    fn to_usize_f(self) -> (r: usize)
        ensures
            r == self.to_usize_s(),
    ;

    /// Runs the implementation's unnormalized forward transform plan
    /// over the buffer in place.
    fn fft_forward_f(buffer: &mut Vec<Complex<Self>>)
        ensures
            final(buffer)@ == Self::fft_fwd_s(old(buffer)@),
            final(buffer)@.len() == old(buffer)@.len(),
    ;

    /// Runs the implementation's unnormalized inverse transform plan
    /// over the buffer in place. An explicit rescale by the length is
    /// the caller's duty.
    fn fft_inverse_f(buffer: &mut Vec<Complex<Self>>)
        ensures
            final(buffer)@ == Self::fft_inv_s(old(buffer)@),
            final(buffer)@.len() == old(buffer)@.len(),
    ;
}

/// Model of complex conjugation.
pub open spec fn conj_s<T: Float>(c: Complex<T>) -> Complex<T> {
    Complex { re: c.re, im: c.im.neg_s() }
}

/// Model of the magnitude of a complex value.
pub open spec fn norm_s<T: Float>(c: Complex<T>) -> T {
    c.re.hypot_s(c.im)
}

/// Model of the squared magnitude of a complex value.
pub open spec fn norm_sqr_s<T: Float>(c: Complex<T>) -> T {
    c.re.mul_s(c.re).add_s(c.im.mul_s(c.im))
}

/// Model of the argument (phase angle) of a complex value.
pub open spec fn arg_s<T: Float>(c: Complex<T>) -> T {
    c.im.atan2_s(c.re)
}

/// Model of building a complex value from magnitude and phase.
pub open spec fn from_polar_s<T: Float>(norm: T, phase: T) -> Complex<T> {
    Complex { re: norm.mul_s(phase.cos_s()), im: norm.mul_s(phase.sin_s()) }
}

impl<T: Float> Complex<T> {
    pub fn new(re: T, im: T) -> (r: Self)
        ensures
            r == (Complex { re, im }),
    {
        Complex { re, im }
    }

    /// A purely real complex value.
    pub fn from_re(re: T) -> (r: Self)
        ensures
            r == (Complex { re, im: T::zero_s() }),
    {
        Complex { re, im: T::zero_f() }
    }

    pub fn conj(self) -> (r: Self)
        ensures
            r == conj_s(self),
    {
        Complex { re: self.re, im: self.im.neg_f() }
    }

    pub fn norm(self) -> (r: T)
        ensures
            r == norm_s(self),
    {
        self.re.hypot_f(self.im)
    }

    pub fn norm_sqr(self) -> (r: T)
        ensures
            r == norm_sqr_s(self),
    {
        self.re.mul_f(self.re).add_f(self.im.mul_f(self.im))
    }

    /// The phase angle of the value.
    pub fn arg(self) -> (r: T)
        ensures
            r == arg_s(self),
    {
        self.im.atan2_f(self.re)
    }

    /// Magnitude and phase of the value, in that order.
    pub fn to_polar(self) -> (r: (T, T))
        ensures
            r.0 == norm_s(self),
            r.1 == arg_s(self),
    {
        (self.norm(), self.arg())
    }

    pub fn from_polar(norm: T, phase: T) -> (r: Self)
        ensures
            r == from_polar_s(norm, phase),
    {
        Complex { re: norm.mul_f(phase.cos_f()), im: norm.mul_f(phase.sin_f()) }
    }

    /// The product with a real scalar.
    pub fn scale(self, factor: T) -> (r: Self)
        ensures
            r == (Complex { re: self.re.mul_s(factor), im: self.im.mul_s(factor) }),
    {
        Complex { re: self.re.mul_f(factor), im: self.im.mul_f(factor) }
    }
}

} // verus!
