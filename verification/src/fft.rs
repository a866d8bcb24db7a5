//! Trusted boundary around the FFT crates.
//!
//! The chain needs three transforms: a real-input forward FFT of a frame
//! (`realfft`), and in-place forward and inverse complex FFTs (`rustfft`).
//! Each result is a pure function of the input samples and the length, so it
//! is given an uninterpreted name that the contracts above speak of.
use vstd::prelude::*;
use rustfft::num_complex::Complex32;

verus! {

/// The half spectrum that realfft's real-to-complex forward FFT returns for
/// the real parts of `s` (`s.len() / 2 + 1` bins).
pub uninterp spec fn rfft_val(s: Seq<Complex32>) -> Seq<Complex32>;

/// The spectrum that rustfft's forward FFT returns for `s`.
pub uninterp spec fn fft_val(s: Seq<Complex32>) -> Seq<Complex32>;

/// The (unnormalized) signal that rustfft's inverse FFT returns for `s`.
pub uninterp spec fn ifft_val(s: Seq<Complex32>) -> Seq<Complex32>;

/// Relies on realfft's RealToComplex::process: the forward FFT of the real
/// parts of `input`, with only the non-negative-frequency half represented.
/// The planned length always matches the input length, so `process` cannot
/// return an error.
#[verifier::external_body]
pub(crate) fn rfft_forward(input: &Vec<Complex32>) -> (r: Vec<Complex32>)
    requires
        input.len() >= 1,
    ensures
        r@ == rfft_val(input@),
        r.len() == input.len() / 2 + 1,
{
    let mut reals: Vec<_> = input.iter().map(|x| x.re).collect();
    let mut planner = realfft::RealFftPlanner::new();
    let plan = planner.plan_fft_forward(reals.len());
    let mut out = plan.make_output_vec();
    plan.process(&mut reals, &mut out).unwrap();
    out
}

/// Relies on rustfft's Fft::process with a forward plan of the buffer's own
/// length: the in-place forward FFT of the buffer.
#[verifier::external_body]
pub(crate) fn fft_forward(buf: &mut Vec<Complex32>)
    requires
        old(buf).len() >= 1,
    ensures
        final(buf)@ == fft_val(old(buf)@),
        final(buf).len() == old(buf).len(),
{
    let mut planner = rustfft::FftPlanner::new();
    let plan = planner.plan_fft_forward(buf.len());
    plan.process(buf);
}

/// Relies on rustfft's Fft::process with an inverse plan of the buffer's own
/// length: the in-place unnormalized inverse FFT of the buffer.
#[verifier::external_body]
pub(crate) fn fft_inverse(buf: &mut Vec<Complex32>)
    requires
        old(buf).len() >= 1,
    ensures
        final(buf)@ == ifft_val(old(buf)@),
        final(buf).len() == old(buf).len(),
{
    let mut planner = rustfft::FftPlanner::new();
    let plan = planner.plan_fft_inverse(buf.len());
    plan.process(buf);
}

} // verus!
