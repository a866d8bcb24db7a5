//! Complex baseband samples.
//!
//! The signal chain stores and rearranges complex samples; the arithmetic on
//! them is done by the `num_complex` crate (re-exported by `rustfft`). Verus
//! treats `Complex32` as an opaque value: each arithmetic operation is a small
//! trusted wrapper whose result is pinned to an uninterpreted name, so that
//! every contract above this module can state exactly which operation was
//! applied to which sample.
use vstd::prelude::*;
use rustfft::num_complex::Complex32;

verus! {

/// Declares num_complex's `Complex` to Verus as an opaque type, so that
/// `Complex32` values can flow through verified code.
#[verifier::external_type_specification]
#[verifier::external_body]
#[verifier::reject_recursive_types(T)]
pub struct ExComplex<T>(rustfft::num_complex::Complex<T>);

/// The complex number that `Complex32::new` builds from the two integers.
pub uninterp spec fn cpx_val(re: int, im: int) -> Complex32;

/// The sum that `num_complex`'s addition returns.
pub uninterp spec fn add_val(a: Complex32, b: Complex32) -> Complex32;

/// The difference that `num_complex`'s subtraction returns.
pub uninterp spec fn sub_val(a: Complex32, b: Complex32) -> Complex32;

/// The product that `num_complex`'s multiplication returns.
pub uninterp spec fn mul_val(a: Complex32, b: Complex32) -> Complex32;

/// The conjugate that `Complex32::conj` returns.
pub uninterp spec fn conj_val(a: Complex32) -> Complex32;

/// The magnitude that `Complex32::norm` returns, kept as a real-valued complex.
pub uninterp spec fn abs_val(a: Complex32) -> Complex32;

/// Whether the real part of `a` is strictly greater than the real part of `b`.
pub uninterp spec fn re_gt_val(a: Complex32, b: Complex32) -> bool;

/// The real smoothing factor `ppm / 1_000_000` as a complex value.
pub uninterp spec fn alpha_val(ppm: int) -> Complex32;

/// The de-rotation phasor `cis(-2*pi*n*f)` for the normalized carrier
/// frequency `f = f_ppm / 1_000_000` at full-rate sample index `n`.
pub uninterp spec fn carrier_val(n: int, f_ppm: int) -> Complex32;

/// One step of the complex exponential moving average:
/// `(1 - alpha) * e + alpha * x`.
pub open spec fn ema_val(alpha: Complex32, e: Complex32, x: Complex32) -> Complex32 {
    add_val(mul_val(sub_val(cpx_val(1, 0), alpha), e), mul_val(alpha, x))
}

/// Relies on Complex32::new: the complex number with the two given parts.
#[verifier::external_body]
pub(crate) fn cpx_from_int(re: i32, im: i32) -> (r: Complex32)
    ensures
        r == cpx_val(re as int, im as int),
{
    Complex32::new(re as _, im as _)
}

/// Relies on num_complex's Add impl for the sum of two samples.
#[verifier::external_body]
pub(crate) fn cpx_add(a: Complex32, b: Complex32) -> (r: Complex32)
    ensures
        r == add_val(a, b),
{
    a + b
}

/// Relies on num_complex's Sub impl for the difference of two samples.
#[verifier::external_body]
pub(crate) fn cpx_sub(a: Complex32, b: Complex32) -> (r: Complex32)
    ensures
        r == sub_val(a, b),
{
    a - b
}

/// Relies on num_complex's Mul impl for the product of two samples.
#[verifier::external_body]
pub(crate) fn cpx_mul(a: Complex32, b: Complex32) -> (r: Complex32)
    ensures
        r == mul_val(a, b),
{
    a * b
}

/// Relies on Complex32::conj for the complex conjugate.
#[verifier::external_body]
pub(crate) fn cpx_conj(a: Complex32) -> (r: Complex32)
    ensures
        r == conj_val(a),
{
    a.conj()
}

/// Relies on Complex32::norm for the magnitude, returned with imaginary part
/// zero so that it can be stored next to ordinary samples. The magnitude of
/// the zero sample is the zero sample.
#[verifier::external_body]
pub(crate) fn cpx_abs(a: Complex32) -> (r: Complex32)
    ensures
        r == abs_val(a),
        a == cpx_val(0, 0) ==> r == cpx_val(0, 0),
{
    Complex32::from(a.norm())
}

/// Relies on the standard strict greater-than comparison of the real parts.
#[verifier::external_body]
pub(crate) fn cpx_re_gt(a: Complex32, b: Complex32) -> (r: bool)
    ensures
        r == re_gt_val(a, b),
{
    a.re > b.re
}

/// Relies on Complex32::new and Complex32::unscale: the smoothing factor
/// `ppm / 1_000_000` as a real-valued complex number.
#[verifier::external_body]
pub(crate) fn alpha_from_ppm(ppm: u32) -> (r: Complex32)
    ensures
        r == alpha_val(ppm as int),
{
    Complex32::new(ppm as _, 0 as _).unscale(1000000 as _)
}

/// Relies on Complex32::cis: the phasor `cis(-2*pi*n*f)`, with the normalized
/// carrier frequency `f = f_ppm / 1_000_000` evaluated at sample index `n`.
#[verifier::external_body]
pub(crate) fn carrier_at(n: usize, f_ppm: u32) -> (r: Complex32)
    ensures
        r == carrier_val(n as int, f_ppm as int),
{
    let fnorm = Complex32::new(f_ppm as _, 0 as _).unscale(1000000 as _).re;
    let nf = Complex32::new(n as _, 0 as _).re;
    let minus_two = Complex32::new(-2 as _, 0 as _).re;
    let one = Complex32::new(1 as _, 0 as _).re;
    let pi = one.asin() + one.asin();  // asin(1) is pi/2

    Complex32::cis(minus_two * pi * nf * fnorm)
}

} // verus!
