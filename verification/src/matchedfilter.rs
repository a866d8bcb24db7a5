//! Pulse compression by frequency-domain correlation.
//!
//! The reference pulse's half spectrum is computed once at construction. Per
//! pulse, the input frame's real-input FFT is multiplied bin by bin with the
//! conjugate reference spectrum (bins beyond the represented half stay zero),
//! transformed back to the time domain, decimated by the configured factor,
//! and de-rotated by the carrier phasor evaluated at the full-rate index.
use vstd::prelude::*;
use vstd::pervasive::VecAdditionalExecFns;
use vstd::arithmetic::div_mod::lemma_fundamental_div_mod;
use rustfft::num_complex::Complex32;

use crate::cpx::{carrier_at, carrier_val, conj_val, cpx_conj, cpx_from_int, cpx_mul, cpx_val, mul_val};
use crate::fft::{fft_inverse, ifft_val, rfft_forward, rfft_val};
use crate::SonarError;

verus! {

/// Correlates each incoming frame against the fixed reference pulse.
pub struct MatchedFilter {
    input_length: usize,
    decimation: usize,
    carrier_ppm: u32,
    impulse_fft: Vec<Complex32>,
    negative_carrier: Vec<Complex32>,
    scratch2: Vec<Complex32>,
}

impl MatchedFilter {
    /// The reference pulse length; every frame must have exactly this length.
    pub closed spec fn pulse_len(&self) -> nat {
        self.input_length as nat
    }

    /// The decimation factor.
    pub closed spec fn decim(&self) -> nat {
        self.decimation as nat
    }

    /// The normalized carrier frequency in parts per million.
    pub closed spec fn f_ppm(&self) -> u32 {
        self.carrier_ppm
    }

    /// The reference pulse's half spectrum (`pulse_len / 2 + 1` bins).
    pub closed spec fn ref_spectrum(&self) -> Seq<Complex32> {
        self.impulse_fft@
    }

    /// Number of range bins one compressed pulse yields:
    /// `ceil(pulse_len / decimation)`.
    pub open spec fn out_len(&self) -> int {
        (self.pulse_len() + self.decim() - 1) as int / (self.decim() as int)
    }

    pub closed spec fn wf(&self) -> bool {
        &&& self.input_length >= 1
        &&& self.decimation >= 1
        &&& self.impulse_fft@.len() == self.input_length / 2 + 1
        &&& self.negative_carrier@.len() == self.input_length
        &&& (forall|n: int|
            0 <= n < self.input_length ==> #[trigger] self.negative_carrier@[n] == carrier_val(
                n,
                self.carrier_ppm as int,
            ))
        &&& self.scratch2@.len() == self.input_length
    }

    /// The frequency-domain correlation of `inp` with the reference: the
    /// represented half-spectrum bins carry the product with the conjugate
    /// reference bins, all bins above stay zero.
    pub open spec fn masked_spectrum(&self, inp: Seq<Complex32>) -> Seq<Complex32> {
        Seq::new(
            self.pulse_len(),
            |k: int|
                if k < self.ref_spectrum().len() {
                    mul_val(rfft_val(inp)[k], conj_val(self.ref_spectrum()[k]))
                } else {
                    cpx_val(0, 0)
                },
        )
    }

    /// The full-length time-domain cross-correlation of `inp` with the
    /// reference pulse.
    pub open spec fn xcorr(&self, inp: Seq<Complex32>) -> Seq<Complex32> {
        ifft_val(self.masked_spectrum(inp))
    }

    /// Range bin `j` of the compressed pulse: the correlation sample at the
    /// full-rate index `j * decimation`, de-rotated by the carrier phasor
    /// evaluated at that same full-rate index.
    pub open spec fn compressed_at(&self, inp: Seq<Complex32>, j: int) -> Complex32 {
        mul_val(
            self.xcorr(inp)[j * self.decim()],
            carrier_val(j * self.decim(), self.f_ppm() as int),
        )
    }

    /// Precompute the reference spectrum and the carrier de-rotation table.
    ///
    /// The reference pulse must be non-empty and the decimation factor at
    /// least 1.
    pub fn new(impulse: &Vec<Complex32>, normalized_f_carrier_ppm: u32, decimation: usize) -> (r:
        Result<MatchedFilter, SonarError>)
        ensures
            r is Err <==> (impulse.len() == 0 || decimation == 0),
            r is Err ==> r == Result::<MatchedFilter, SonarError>::Err(
                SonarError::ConfigurationError,
            ),
            r is Ok ==> {
                let f = r->Ok_0;
                &&& f.wf()
                &&& f.pulse_len() == impulse.len()
                &&& f.decim() == decimation
                &&& f.f_ppm() == normalized_f_carrier_ppm
                &&& f.ref_spectrum() == rfft_val(impulse@)
            },
    {
        if impulse.len() == 0 || decimation == 0 {
            return Err(SonarError::ConfigurationError);
        }
        let len = impulse.len();
        let impulse_fft = rfft_forward(impulse);
        let mut negative_carrier: Vec<Complex32> = Vec::new();
        for n in 0..len
            invariant
                negative_carrier.len() == n,
                forall|n2: int|
                    0 <= n2 < n ==> #[trigger] negative_carrier@[n2] == carrier_val(
                        n2,
                        normalized_f_carrier_ppm as int,
                    ),
        {
            negative_carrier.push(carrier_at(n, normalized_f_carrier_ppm));
        }
        let zero = cpx_from_int(0, 0);
        let mut scratch2: Vec<Complex32> = Vec::new();
        for n in 0..len
            invariant
                scratch2.len() == n,
        {
            scratch2.push(zero);
        }
        Ok(
            MatchedFilter {
                input_length: len,
                decimation,
                carrier_ppm: normalized_f_carrier_ppm,
                impulse_fft,
                negative_carrier,
                scratch2,
            },
        )
    }

    /// Compress one frame into `output`.
    ///
    /// A frame whose length differs from the reference pulse is rejected
    /// before anything is touched; `output` must hold exactly one compressed
    /// pulse (`out_len` bins).
    pub fn handle_impulse(&mut self, input: &Vec<Complex32>, output: &mut Vec<Complex32>) -> (r:
        Result<(), SonarError>)
        requires
            old(self).wf(),
            old(output).len() == old(self).out_len(),
        ensures
            final(self).wf(),
            final(self).pulse_len() == old(self).pulse_len(),
            final(self).decim() == old(self).decim(),
            final(self).f_ppm() == old(self).f_ppm(),
            final(self).ref_spectrum() == old(self).ref_spectrum(),
            final(output).len() == old(output).len(),
            r is Ok <==> input.len() == old(self).pulse_len(),
            r is Err ==> r == Result::<(), SonarError>::Err(SonarError::InputLengthMismatch)
                && *final(self) == *old(self) && final(output)@ == old(output)@,
            r is Ok ==> forall|j: int|
                0 <= j < old(self).out_len() ==> final(output)@[j] == old(self).compressed_at(
                    input@,
                    j,
                ),
    {
        if input.len() != self.input_length {
            return Err(SonarError::InputLengthMismatch);
        }
        let len = self.input_length;
        let half = rfft_forward(input);
        let ghost masked = old(self).masked_spectrum(input@);
        let zero = cpx_from_int(0, 0);
        let half_len = half.len();
        for k in 0..len
            invariant
                self.input_length == old(self).input_length,
                self.decimation == old(self).decimation,
                self.carrier_ppm == old(self).carrier_ppm,
                self.impulse_fft == old(self).impulse_fft,
                self.negative_carrier == old(self).negative_carrier,
                self.scratch2@.len() == len,
                old(self).wf(),
                len == old(self).pulse_len(),
                half_len == half.len(),
                half@ == rfft_val(input@),
                half.len() == len / 2 + 1,
                input@.len() == len,
                zero == cpx_val(0, 0),
                masked == old(self).masked_spectrum(input@),
                masked.len() == len,
                forall|k2: int| 0 <= k2 < k ==> self.scratch2@[k2] == masked[k2],
        {
            if k < half_len {
                let v = cpx_mul(half[k], cpx_conj(self.impulse_fft[k]));
                self.scratch2.set(k, v);
            } else {
                self.scratch2.set(k, zero);
            }
        }
        assert(self.scratch2@ =~= masked);
        fft_inverse(&mut self.scratch2);
        assert(self.scratch2@ == ifft_val(masked));
        let n_out = output.len();
        let decimation = self.decimation;
        for j in 0..n_out
            invariant
                self.input_length == old(self).input_length,
                self.decimation == old(self).decimation,
                self.carrier_ppm == old(self).carrier_ppm,
                self.impulse_fft == old(self).impulse_fft,
                self.negative_carrier == old(self).negative_carrier,
                self.scratch2@.len() == len,
                old(self).wf(),
                len == old(self).pulse_len(),
                decimation == old(self).decim(),
                n_out == old(self).out_len(),
                n_out == output.len(),
                input@.len() == len,
                masked == old(self).masked_spectrum(input@),
                self.scratch2@ == ifft_val(masked),
                forall|j2: int|
                    0 <= j2 < j ==> output@[j2] == old(self).compressed_at(input@, j2),
        {
            proof {
                lemma_fundamental_div_mod((len + decimation - 1) as int, decimation as int);
                assert(j * decimation < len) by (nonlinear_arith)
                    requires
                        0 <= (j as int) < n_out as int,
                        n_out as int == ((len + decimation - 1) as int) / (decimation as int),
                        (len + decimation - 1) as int == (decimation as int) * (((len + decimation
                            - 1) as int) / (decimation as int)) + ((len + decimation - 1) as int)
                            % (decimation as int),
                        0 <= ((len + decimation - 1) as int) % (decimation as int) < (decimation
                            as int),
                        (decimation as int) >= 1,
                        (len as int) >= 1,
                ;
            }
            let idx = j * decimation;
            let v = cpx_mul(self.scratch2[idx], self.negative_carrier[idx]);
            output.set(j, v);
        }
        Ok(())
    }

    /// The reference pulse length.
    pub fn input_length(&self) -> (r: usize)
        ensures
            r == self.pulse_len(),
    {
        self.input_length
    }
}

} // verus!
