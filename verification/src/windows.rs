use vstd::prelude::*;

use crate::float::Float;

verus! {

/// The gain of the trapezoid window at index `i`: a ramp of `sleeve`
/// samples up from the left edge, a ramp down to the right edge, and a
/// flat top of gain one between them.
pub open spec fn trapezoid_at<T: Float>(size: usize, sleeve: usize, i: int) -> T {
    let sleeve_f = T::from_usize_s((sleeve + 1) as usize);
    let size_f = T::from_usize_s(size);
    let i_f = T::from_usize_s(i as usize);
    i_f.add_s(T::one_s()).div_s(sleeve_f).min_s(size_f.sub_s(i_f).div_s(sleeve_f)).min_s(
        T::one_s(),
    )
}

/// The gain of the Hann window at index `i`:
/// `0.5 * (1 - cos(i * tau / size))`.
pub open spec fn hann_at<T: Float>(size: usize, i: int) -> T {
    T::from_ratio_s(1, 2).mul_s(
        T::one_s().sub_s(T::from_usize_s(i as usize).mul_s(T::tau_s()).div_s(T::from_usize_s(size)).cos_s()),
    )
}

/// The gain of the Hamming window at index `i`, with `a = 25/46`:
/// `a - (1 - a) * cos(i * tau / size)`.
pub open spec fn hamming_at<T: Float>(size: usize, i: int) -> T {
    let a = T::from_ratio_s(25, 46);
    a.sub_s(
        T::one_s().sub_s(a).mul_s(
            T::from_usize_s(i as usize).mul_s(T::tau_s()).div_s(T::from_usize_s(size)).cos_s(),
        ),
    )
}

/// The gain of the Blackman window at index `i`:
/// `a0 - a1 * cos(i * tau / size) + a2 * cos(2 * i * tau / size)` with
/// `a0 = (1 - alpha) / 2`, `a1 = 1 / 2`, `a2 = alpha / 2`.
pub open spec fn blackman_at<T: Float>(alpha: T, size: usize, i: int) -> T {
    let two = T::from_ratio_s(2, 1);
    let a0 = T::one_s().sub_s(alpha).div_s(two);
    let a1 = T::one_s().div_s(two);
    let a2 = alpha.div_s(two);
    a0.sub_s(
        a1.mul_s(T::from_usize_s(i as usize).mul_s(T::tau_s()).div_s(T::from_usize_s(size)).cos_s()),
    ).add_s(
        a2.mul_s(
            T::from_usize_s((2 * i) as usize).mul_s(T::tau_s()).div_s(T::from_usize_s(size)).cos_s(),
        ),
    )
}

/// A window of constant gain one.
pub fn rectangular_window<T: Float>(size: usize) -> (r: Vec<T>)
    ensures
        r@.len() == size,
        forall|i: int| 0 <= i < size ==> r@[i] == T::one_s(),
{
    let mut out: Vec<T> = Vec::new();
    let mut i: usize = 0;
    while i < size
        invariant
            i <= size,
            out@.len() == i,
            forall|j: int| 0 <= j < i ==> out@[j] == T::one_s(),
        decreases size - i,
    {
        out.push(T::one_f());
        i = i + 1;
    }
    out
}

/// A trapezoid window with ramps of `sleeve` samples at both edges.
pub fn trapezoid_window<T: Float>(size: usize, sleeve: usize) -> (r: Vec<T>)
    requires
        sleeve < usize::MAX,
    ensures
        r@.len() == size,
        forall|i: int| 0 <= i < size ==> r@[i] == trapezoid_at::<T>(size, sleeve, i),
{
    let sleeve_f = T::from_usize_f(sleeve + 1);
    let size_f = T::from_usize_f(size);
    let mut out: Vec<T> = Vec::new();
    let mut i: usize = 0;
    while i < size
        invariant
            i <= size,
            sleeve < usize::MAX,
            sleeve_f == T::from_usize_s((sleeve + 1) as usize),
            size_f == T::from_usize_s(size),
            out@.len() == i,
            forall|j: int| 0 <= j < i ==> out@[j] == trapezoid_at::<T>(size, sleeve, j),
        decreases size - i,
    {
        let i_f = T::from_usize_f(i);
        out.push(
            i_f.add_f(T::one_f()).div_f(sleeve_f).min_f(size_f.sub_f(i_f).div_f(sleeve_f)).min_f(
                T::one_f(),
            ),
        );
        i = i + 1;
    }
    out
}

/// The Hann window: a raised cosine from zero at the edges to one in
/// the middle.
pub fn hann_window<T: Float>(size: usize) -> (r: Vec<T>)
    ensures
        r@.len() == size,
        forall|i: int| 0 <= i < size ==> r@[i] == hann_at::<T>(size, i),
{
    let size_f = T::from_usize_f(size);
    let half = T::from_ratio_f(1, 2);
    let mut out: Vec<T> = Vec::new();
    let mut i: usize = 0;
    while i < size
        invariant
            i <= size,
            size_f == T::from_usize_s(size),
            half == T::from_ratio_s(1, 2),
            out@.len() == i,
            forall|j: int| 0 <= j < i ==> out@[j] == hann_at::<T>(size, j),
        decreases size - i,
    {
        out.push(
            half.mul_f(T::one_f().sub_f(T::from_usize_f(i).mul_f(T::tau_f()).div_f(size_f).cos_f())),
        );
        i = i + 1;
    }
    out
}

/// The Hamming window: a raised cosine that does not reach zero at the
/// edges.
pub fn hamming_window<T: Float>(size: usize) -> (r: Vec<T>)
    ensures
        r@.len() == size,
        forall|i: int| 0 <= i < size ==> r@[i] == hamming_at::<T>(size, i),
{
    let size_f = T::from_usize_f(size);
    let a = T::from_ratio_f(25, 46);
    let mut out: Vec<T> = Vec::new();
    let mut i: usize = 0;
    while i < size
        invariant
            i <= size,
            size_f == T::from_usize_s(size),
            a == T::from_ratio_s(25, 46),
            out@.len() == i,
            forall|j: int| 0 <= j < i ==> out@[j] == hamming_at::<T>(size, j),
        decreases size - i,
    {
        out.push(
            a.sub_f(T::one_f().sub_f(a).mul_f(T::from_usize_f(i).mul_f(T::tau_f()).div_f(size_f).cos_f())),
        );
        i = i + 1;
    }
    out
}

/// The Blackman window with parameter `alpha`.
pub fn blackman_window<T: Float>(alpha: T, size: usize) -> (r: Vec<T>)
    requires
        size <= usize::MAX / 2,
    ensures
        r@.len() == size,
        forall|i: int| 0 <= i < size ==> r@[i] == blackman_at::<T>(alpha, size, i),
{
    let size_f = T::from_usize_f(size);
    let two = T::from_ratio_f(2, 1);
    let a0 = T::one_f().sub_f(alpha).div_f(two);
    let a1 = T::one_f().div_f(two);
    let a2 = alpha.div_f(two);
    let mut out: Vec<T> = Vec::new();
    let mut i: usize = 0;
    while i < size
        invariant
            i <= size,
            size <= usize::MAX / 2,
            size_f == T::from_usize_s(size),
            a0 == T::one_s().sub_s(alpha).div_s(T::from_ratio_s(2, 1)),
            a1 == T::one_s().div_s(T::from_ratio_s(2, 1)),
            a2 == alpha.div_s(T::from_ratio_s(2, 1)),
            out@.len() == i,
            forall|j: int| 0 <= j < i ==> out@[j] == blackman_at::<T>(alpha, size, j),
        decreases size - i,
    {
        out.push(
            a0.sub_f(a1.mul_f(T::from_usize_f(i).mul_f(T::tau_f()).div_f(size_f).cos_f())).add_f(
                a2.mul_f(T::from_usize_f(2 * i).mul_f(T::tau_f()).div_f(size_f).cos_f()),
            ),
        );
        i = i + 1;
    }
    out
}

/// The Blackman window with the common parameter `alpha = 0.16`.
pub fn blackman_window_default<T: Float>(size: usize) -> (r: Vec<T>)
    requires
        size <= usize::MAX / 2,
    ensures
        r@.len() == size,
        forall|i: int| 0 <= i < size ==> r@[i] == blackman_at::<T>(T::from_ratio_s(4, 25), size, i),
{
    blackman_window(T::from_ratio_f(4, 25), size)
}

} // verus!
