//! A real-time active-sonar pulse-Doppler signal chain.
//!
//! Raw time-domain samples are framed by an accumulator, compressed in range
//! by a matched filter, tracked and cancelled by the clutter subsystem, and
//! collected in a circular pulse history whose slow-time spectrum yields a
//! range-Doppler magnitude map.
use vstd::prelude::*;
use vstd::pervasive::VecAdditionalExecFns;
use vstd::arithmetic::div_mod::{lemma_fundamental_div_mod, lemma_fundamental_div_mod_converse};
use rustfft::num_complex::Complex32;

pub mod clutterfilter;
pub mod cpx;
pub mod doppler_processing;
pub mod fft;
pub mod gui;
pub mod matchedfilter;

use crate::clutterfilter::{
    argmax_idx, ema_seq, ClutterFilter, ClutterMap, DummyFilter, LeakyIntegratorFilter,
    TwoPulseCanceller, PPM_ONE,
};
use crate::cpx::{abs_val, alpha_val, cpx_abs, cpx_from_int, cpx_val};
use crate::doppler_processing::RangeDopplerProcessor;
use crate::matchedfilter::MatchedFilter;

verus! {

/// Errors of the signal chain.
///
/// Configuration errors abort construction; a pulse whose length does not
/// match the reference pulse is rejected before any state is touched.
/// Mismatched buffer lengths between cooperating stages are programming
/// errors, ruled out statically by the verified contracts rather than
/// reported at run time.
#[derive(Clone, Copy, PartialEq, Eq, Structural, Debug)]
pub enum SonarError {
    ConfigurationError,
    InputLengthMismatch,
}

/// Turns an arbitrary stream of samples into frames of a fixed length.
pub struct InputBuffer {
    buffer: Vec<Complex32>,
    output_length: usize,
}

impl InputBuffer {
    /// The samples currently buffered, oldest first.
    pub closed spec fn buffered(&self) -> Seq<Complex32> {
        self.buffer@
    }

    /// The fixed frame length.
    pub closed spec fn frame_len(&self) -> nat {
        self.output_length as nat
    }

    /// The buffer contents after one call that appends `samples`: if a full
    /// frame's worth was already buffered, the oldest `frame_len` samples are
    /// discarded first, keeping anything beyond the previous frame boundary.
    pub open spec fn slid(&self, samples: Seq<Complex32>) -> Seq<Complex32> {
        if self.buffered().len() >= self.frame_len() {
            self.buffered().skip(self.frame_len() as int) + samples
        } else {
            self.buffered() + samples
        }
    }

    /// An empty accumulator for frames of `output_length` samples.
    pub fn new(output_length: usize) -> (r: InputBuffer)
        ensures
            r.frame_len() == output_length,
            r.buffered() == Seq::<Complex32>::empty(),
    {
        InputBuffer { buffer: Vec::new(), output_length }
    }

    /// How many samples are currently buffered.
    pub fn buffered_len(&self) -> (r: usize)
        ensures
            r == self.buffered().len(),
    {
        self.buffer.len()
    }

    /// Accept one chunk of samples of any size. Returns a frame of exactly
    /// `frame_len` samples, oldest first, as soon as that many are buffered;
    /// otherwise returns nothing and waits for more.
    pub fn handle_input(&mut self, samples: &Vec<Complex32>) -> (r: Option<Vec<Complex32>>)
        ensures
            final(self).frame_len() == old(self).frame_len(),
            final(self).buffered() == old(self).slid(samples@),
            r is Some <==> old(self).slid(samples@).len() >= old(self).frame_len(),
            r is Some ==> r->0@ == old(self).slid(samples@).take(old(self).frame_len() as int),
    {
        let l = self.output_length;
        if self.buffer.len() >= l {
            let n = self.buffer.len();
            for i in 0..n - l
                invariant
                    l <= n == self.buffer.len(),
                    l == self.output_length,
                    forall|k: int| 0 <= k < i ==> self.buffer@[k] == old(self).buffered()[k + l],
                    forall|k: int| i <= k < n ==> self.buffer@[k] == old(self).buffered()[k],
            {
                let v = self.buffer[i + l];
                self.buffer.set(i, v);
            }
            self.buffer.truncate(n - l);
            assert(self.buffer@ =~= old(self).buffered().skip(l as int));
        }
        let ghost dropped = self.buffer@;
        let m = samples.len();
        for s in 0..m
            invariant
                m == samples.len(),
                self.output_length == l,
                self.buffer@ == dropped + samples@.take(s as int),
        {
            self.buffer.push(samples[s]);
            assert(self.buffer@ =~= dropped + samples@.take(s + 1 as int));
        }
        assert(self.buffer@ =~= old(self).slid(samples@));
        if self.buffer.len() < l {
            None
        } else {
            let mut frame: Vec<Complex32> = Vec::new();
            for i in 0..l
                invariant
                    frame.len() == i,
                    l <= self.buffer.len(),
                    l == self.output_length,
                    self.buffer@ == old(self).slid(samples@),
                    forall|k: int| 0 <= k < i ==> frame@[k] == self.buffer@[k],
            {
                frame.push(self.buffer[i]);
            }
            assert(frame@ =~= old(self).slid(samples@).take(l as int));
            Some(frame)
        }
    }
}

/// Which cancellation strategy the engine runs, and whether the zero-Doppler
/// row is cleared before magnitudes are taken.
#[derive(Clone, Copy, PartialEq, Eq, Structural)]
pub enum ClutterFilterOption {
    NoFilter,
    RemoveZero,
    TwoPulse,
    Slow,
}

/// Range-bin count of a compressed pulse: `ceil(pulse_len / decimation)`.
pub open spec fn n_fast_of(pulse_len: int, decimation: int) -> int {
    (pulse_len + decimation - 1) / decimation
}

/// The full pulse-Doppler engine: accumulator, matched filter, clutter
/// subsystem and range-Doppler history, run once per completed pulse.
pub struct Sonar {
    input_buffer: InputBuffer,
    range_doppler_output: Vec<Complex32>,
    range_doppler: RangeDopplerProcessor,
    matched_filter: MatchedFilter,
    clutter_filter: ClutterFilter,
    clutter_map: ClutterMap,
    row_scratch: Vec<Complex32>,
    track_offset: bool,
    remove_zero: bool,
}

impl Sonar {
    /// The sample accumulator.
    pub closed spec fn accumulator(&self) -> InputBuffer {
        self.input_buffer
    }

    /// The matched filter.
    pub closed spec fn compressor(&self) -> MatchedFilter {
        self.matched_filter
    }

    /// The pulse history and range-Doppler transform.
    pub closed spec fn processor(&self) -> RangeDopplerProcessor {
        self.range_doppler
    }

    /// The clutter-map tracker.
    pub closed spec fn tracker(&self) -> ClutterMap {
        self.clutter_map
    }

    /// The selected cancellation strategy.
    pub closed spec fn canceller(&self) -> ClutterFilter {
        self.clutter_filter
    }

    /// Whether the range axis follows the clutter map's strongest bin.
    pub closed spec fn tracks_offset(&self) -> bool {
        self.track_offset
    }

    /// Whether the zero-Doppler row is cleared in the displayed map.
    pub closed spec fn removes_zero(&self) -> bool {
        self.remove_zero
    }

    pub closed spec fn scratch_wf(&self) -> bool {
        &&& self.row_scratch@.len() == self.processor().fast_len()
        &&& self.range_doppler_output@.len() == self.processor().slow_len()
            * self.processor().fast_len()
    }

    pub open spec fn wf(&self) -> bool {
        &&& self.compressor().wf()
        &&& self.processor().wf()
        &&& self.tracker().wf()
        &&& self.accumulator().frame_len() == self.compressor().pulse_len()
        &&& self.processor().fast_len() == self.compressor().out_len()
        &&& self.tracker().estimate().len() == self.processor().fast_len()
        &&& self.canceller().accepts(self.processor().fast_len())
        &&& self.scratch_wf()
    }

    /// The compressed pulse the matched filter yields for one frame.
    pub open spec fn raw_row(&self, frame: Seq<Complex32>) -> Seq<Complex32> {
        Seq::new(
            self.compressor().out_len() as nat,
            |j: int| self.compressor().compressed_at(frame, j),
        )
    }

    /// The value displayed at Doppler row `d`, range column `j`: the
    /// magnitude of the range-Doppler map there, with the center Doppler row
    /// cleared first when zero-Doppler suppression is configured.
    pub open spec fn displayed_at(&self, d: int, j: int) -> Complex32 {
        if self.removes_zero() && d == self.processor().slow_len() as int / 2 {
            abs_val(cpx_val(0, 0))
        } else {
            abs_val(self.processor().map_at(d, j))
        }
    }

    /// Everything configured at construction, unchanged by any later call.
    pub open spec fn same_config(&self, post: &Sonar) -> bool {
        &&& post.accumulator().frame_len() == self.accumulator().frame_len()
        &&& post.compressor().pulse_len() == self.compressor().pulse_len()
        &&& post.compressor().decim() == self.compressor().decim()
        &&& post.compressor().f_ppm() == self.compressor().f_ppm()
        &&& post.compressor().ref_spectrum() == self.compressor().ref_spectrum()
        &&& post.processor().slow_len() == self.processor().slow_len()
        &&& post.processor().fast_len() == self.processor().fast_len()
        &&& post.tracker().alpha_ppm() == self.tracker().alpha_ppm()
        &&& post.tracks_offset() == self.tracks_offset()
        &&& post.removes_zero() == self.removes_zero()
    }

    /// Build the selected cancellation strategy.
    fn create_filter(n_fast: usize, filter_option: ClutterFilterOption, alpha: u32) -> (r: Result<
        ClutterFilter,
        SonarError,
    >)
        ensures
            r is Err <==> (filter_option == ClutterFilterOption::Slow && !(0 < alpha < PPM_ONE)),
            r is Err ==> r == Result::<ClutterFilter, SonarError>::Err(
                SonarError::ConfigurationError,
            ),
            r is Ok ==> {
                let f = r->Ok_0;
                &&& f.accepts(n_fast as nat)
                &&& ((filter_option == ClutterFilterOption::NoFilter || filter_option
                    == ClutterFilterOption::RemoveZero) <==> f is Dummy)
                &&& (filter_option == ClutterFilterOption::TwoPulse <==> f is TwoPulse)
                &&& (filter_option == ClutterFilterOption::Slow <==> f is Leaky)
                &&& (f is TwoPulse ==> forall|i: int|
                    0 <= i < n_fast ==> f->TwoPulse_0.prev_seq()[i] == cpx_val(0, 0))
                &&& (f is Leaky ==> f->Leaky_0.alpha_ppm() == alpha && forall|i: int|
                    0 <= i < n_fast ==> f->Leaky_0.estimate()[i] == cpx_val(0, 0))
            },
    {
        match filter_option {
            ClutterFilterOption::NoFilter => Ok(ClutterFilter::Dummy(DummyFilter {})),
            ClutterFilterOption::RemoveZero => Ok(ClutterFilter::Dummy(DummyFilter {})),
            ClutterFilterOption::TwoPulse => Ok(
                ClutterFilter::TwoPulse(TwoPulseCanceller::new(n_fast)),
            ),
            ClutterFilterOption::Slow => {
                match LeakyIntegratorFilter::new(n_fast, alpha) {
                    Ok(f) => Ok(ClutterFilter::Leaky(f)),
                    Err(e) => Err(e),
                }
            },
        }
    }

    /// Build an engine from its construction-time configuration.
    ///
    /// Fails fast with `ConfigurationError` on an empty reference pulse, a
    /// zero decimation factor, a zero slow-time depth, a smoothing factor
    /// outside `(0, 1)`, or a map too large for the address space; no
    /// partially built engine is observable.
    pub fn new(
        impulse: &Vec<Complex32>,
        normalized_f_carrier_ppm: u32,
        decimation: usize,
        n_slow: usize,
        clutter_alpha_ppm: u32,
        filter_option: ClutterFilterOption,
        track_offset: bool,
    ) -> (r: Result<Sonar, SonarError>)
        ensures
            r is Err <==> (impulse.len() == 0 || decimation == 0 || n_slow == 0 || !(0
                < clutter_alpha_ppm < PPM_ONE) || (n_slow as int) * n_fast_of(
                impulse.len() as int,
                decimation as int,
            ) > usize::MAX as int),
            r is Err ==> r == Result::<Sonar, SonarError>::Err(SonarError::ConfigurationError),
            r is Ok ==> {
                let s = r->Ok_0;
                &&& s.wf()
                &&& s.compressor().pulse_len() == impulse.len()
                &&& s.compressor().decim() == decimation
                &&& s.compressor().f_ppm() == normalized_f_carrier_ppm
                &&& s.compressor().ref_spectrum() == fft::rfft_val(impulse@)
                &&& s.processor().slow_len() == n_slow
                &&& s.processor().fast_len() == n_fast_of(impulse.len() as int, decimation as int)
                &&& s.processor().cur() == 0
                &&& s.processor().shift_amount() == 0
                &&& (forall|r2: int, c: int|
                    0 <= r2 < n_slow && 0 <= c < s.processor().fast_len() ==> s.processor().cube()[r2][c] == cpx_val(0, 0))
                &&& s.accumulator().frame_len() == impulse.len()
                &&& s.accumulator().buffered() == Seq::<Complex32>::empty()
                &&& s.tracker().alpha_ppm() == clutter_alpha_ppm
                &&& (forall|i: int|
                    0 <= i < s.processor().fast_len() ==> s.tracker().estimate()[i] == cpx_val(
                        0,
                        0,
                    ))
                &&& ((filter_option == ClutterFilterOption::NoFilter || filter_option
                    == ClutterFilterOption::RemoveZero) <==> s.canceller() is Dummy)
                &&& (filter_option == ClutterFilterOption::TwoPulse <==> s.canceller() is TwoPulse)
                &&& (filter_option == ClutterFilterOption::Slow <==> s.canceller() is Leaky)
                &&& s.tracks_offset() == track_offset
                &&& s.removes_zero() == (filter_option == ClutterFilterOption::RemoveZero)
            },
    {
        if impulse.len() == 0 || decimation == 0 || n_slow == 0 || !(0 < clutter_alpha_ppm
            && clutter_alpha_ppm < PPM_ONE) {
            return Err(SonarError::ConfigurationError);
        }
        let n_fast = (impulse.len() - 1) / decimation + 1;
        proof {
            let l = impulse.len() as int;
            let d = decimation as int;
            lemma_fundamental_div_mod(l - 1, d);
            assert(l + d - 1 == ((l - 1) / d + 1) * d + (l - 1) % d) by (nonlinear_arith)
                requires
                    l - 1 == d * ((l - 1) / d) + (l - 1) % d,
            ;
            lemma_fundamental_div_mod_converse(l + d - 1, d, (l - 1) / d + 1, (l - 1) % d);
            assert(n_fast == n_fast_of(l, d));
        }
        let total = match n_slow.checked_mul(n_fast) {
            Some(t) => t,
            Option::None => {
                return Err(SonarError::ConfigurationError);
            },
        };
        let matched_filter = match MatchedFilter::new(impulse, normalized_f_carrier_ppm, decimation) {
            Ok(f) => f,
            Err(e) => {
                return Err(e);
            },
        };
        let range_doppler = match RangeDopplerProcessor::new(n_slow, n_fast) {
            Ok(p) => p,
            Err(e) => {
                return Err(e);
            },
        };
        let clutter_map = match ClutterMap::new(n_fast, clutter_alpha_ppm) {
            Ok(m) => m,
            Err(e) => {
                return Err(e);
            },
        };
        let clutter_filter = match Self::create_filter(n_fast, filter_option, clutter_alpha_ppm) {
            Ok(f) => f,
            Err(e) => {
                return Err(e);
            },
        };
        let zero = cpx_from_int(0, 0);
        let mut range_doppler_output: Vec<Complex32> = Vec::new();
        for p in 0..total
            invariant
                range_doppler_output.len() == p,
        {
            range_doppler_output.push(zero);
        }
        let mut row_scratch: Vec<Complex32> = Vec::new();
        for p in 0..n_fast
            invariant
                row_scratch.len() == p,
        {
            row_scratch.push(zero);
        }
        let s = Sonar {
            input_buffer: InputBuffer::new(impulse.len()),
            range_doppler_output,
            range_doppler,
            matched_filter,
            clutter_filter,
            clutter_map,
            row_scratch,
            track_offset,
            remove_zero: filter_option == ClutterFilterOption::RemoveZero,
        };
        Ok(s)
    }

    /// Feed one chunk of raw samples.
    ///
    /// Returns true iff a full frame was completed and one pulse ran through
    /// the whole chain: matched filtering into the history row at the cursor,
    /// clutter-map update on the raw compressed pulse, in-place cancellation,
    /// cursor advance, and (when tracking is enabled) re-centering on the
    /// clutter map's strongest bin.
    pub fn handle_input(&mut self, samples: &Vec<Complex32>) -> (r: bool)
        requires
            old(self).wf(),
        ensures
            final(self).wf(),
            old(self).same_config(final(self)),
            final(self).accumulator().buffered() == old(self).accumulator().slid(samples@),
            r <==> old(self).accumulator().slid(samples@).len() >= old(
                self,
            ).accumulator().frame_len(),
            !r ==> {
                &&& final(self).processor() == old(self).processor()
                &&& final(self).tracker() == old(self).tracker()
                &&& final(self).canceller() == old(self).canceller()
            },
            r ==> ({
                let frame = old(self).accumulator().slid(samples@).take(
                    old(self).accumulator().frame_len() as int,
                );
                let row = old(self).raw_row(frame);
                let cooked = old(self).canceller().filter_out(row);
                &&& final(self).tracker().estimate() == ema_seq(
                    alpha_val(old(self).tracker().alpha_ppm() as int),
                    old(self).tracker().estimate(),
                    row,
                )
                &&& old(self).canceller().stepped(&final(self).canceller(), row)
                &&& final(self).processor().cube() == old(self).processor().cube().update(
                    old(self).processor().cur(),
                    cooked,
                )
                &&& final(self).processor().cur() == (old(self).processor().cur() + 1) % (old(
                    self,
                ).processor().slow_len() as int)
                &&& final(self).processor().shift_amount() == (if old(self).tracks_offset() {
                    argmax_idx(final(self).tracker().estimate())
                } else {
                    old(self).processor().shift_amount()
                })
            }),
    {
        let frame_opt = self.input_buffer.handle_input(samples);
        let frame = match frame_opt {
            Some(f) => f,
            Option::None => {
                return false;
            },
        };
        let ghost row_spec = old(self).raw_row(frame@);
        let res = self.matched_filter.handle_impulse(&frame, &mut self.row_scratch);
        match res {
            Ok(_) => {},
            Err(_) => {
                // The accumulator emits frames of exactly the reference
                // pulse length, so a length mismatch cannot occur here.
                proof {
                    assert(false);
                }
                return false;
            },
        }
        proof {
            assert(self.row_scratch@ =~= row_spec);
        }
        self.clutter_map.process(&self.row_scratch);
        self.clutter_filter.process_inplace(&mut self.row_scratch);
        self.range_doppler.set_input_row(&self.row_scratch);
        self.range_doppler.next_impulse();
        if self.track_offset {
            let shift = self.clutter_map.argmax();
            proof {
                assert(self.clutter_map.estimate().len() == old(self).tracker().estimate().len());
                assert(self.range_doppler.fast_len() == old(self).processor().fast_len());
            }
            self.range_doppler.set_fast_time_shift(shift);
        }
        true
    }

    /// Compute the displayable range-Doppler magnitude map, row-major with
    /// `n_slow` Doppler rows of `n_fast` range bins. When zero-Doppler
    /// suppression is configured, the center Doppler row is cleared before
    /// magnitudes are taken.
    pub fn get_data_cube(&mut self) -> (r: Vec<Complex32>)
        requires
            old(self).wf(),
        ensures
            final(self).wf(),
            old(self).same_config(final(self)),
            final(self).accumulator() == old(self).accumulator(),
            final(self).tracker() == old(self).tracker(),
            final(self).canceller() == old(self).canceller(),
            final(self).processor().cube() == old(self).processor().cube(),
            final(self).processor().cur() == old(self).processor().cur(),
            final(self).processor().shift_amount() == old(self).processor().shift_amount(),
            r.len() == old(self).processor().slow_len() * old(self).processor().fast_len(),
            forall|d: int, j: int|
                0 <= d < old(self).processor().slow_len() && 0 <= j < old(
                    self,
                ).processor().fast_len() ==> r@[d * old(self).processor().fast_len() + j] == old(
                    self,
                ).displayed_at(d, j),
    {
        let n_slow = self.range_doppler.n_slow();
        let n_fast = self.range_doppler.n_fast();
        self.range_doppler.range_doppler(&mut self.range_doppler_output);
        let ghost shown = self.range_doppler_output@;
        proof {
            assert forall|p: int| 0 <= p < (n_slow as int) * (n_fast as int) implies shown[p]
                == old(self).processor().map_at(p / (n_fast as int), p % (n_fast as int)) by {
                let nf = n_fast as int;
                lemma_fundamental_div_mod(p, nf);
                let d = p / nf;
                let m = p % nf;
                assert(0 <= d < n_slow as int) by (nonlinear_arith)
                    requires
                        p == nf * d + m,
                        0 <= m < nf,
                        0 <= p < (n_slow as int) * nf,
                ;
                assert(p == d * nf + m);
            }
        }
        let ghost mid = *self;
        if self.remove_zero {
            let zero = cpx_from_int(0, 0);
            let center = n_slow / 2;
            for j in 0..n_fast
                invariant
                    self.input_buffer == mid.input_buffer,
                    self.range_doppler == mid.range_doppler,
                    self.matched_filter == mid.matched_filter,
                    self.clutter_filter == mid.clutter_filter,
                    self.clutter_map == mid.clutter_map,
                    self.row_scratch == mid.row_scratch,
                    self.track_offset == mid.track_offset,
                    self.remove_zero == mid.remove_zero,
                    self.range_doppler_output.len() == n_slow * n_fast,
                    n_slow >= 1,
                    n_fast >= 1,
                    center == n_slow / 2,
                    shown.len() == n_slow * n_fast,
                    zero == cpx_val(0, 0),
                    forall|p: int|
                        0 <= p < n_slow * n_fast && !((center * n_fast) <= p < (center * n_fast
                            + j)) ==> self.range_doppler_output@[p] == shown[p],
                    forall|p: int|
                        (center * n_fast) <= p < (center * n_fast + j)
                            ==> self.range_doppler_output@[p] == cpx_val(0, 0),
            {
                proof {
                    assert((center as int) * n_fast + j < (n_slow as int) * n_fast)
                        by (nonlinear_arith)
                        requires
                            0 <= (center as int) < n_slow as int,
                            0 <= (j as int) < n_fast as int,
                    ;
                    assert((center as int) * n_fast >= 0) by (nonlinear_arith)
                        requires
                            0 <= center as int,
                            0 <= n_fast as int,
                    ;
                }
                let pos = center * n_fast + j;
                self.range_doppler_output.set(pos, zero);
            }
        }
        let total = self.range_doppler_output.len();
        let ghost cleared = self.range_doppler_output@;
        let mut r: Vec<Complex32> = Vec::new();
        for p in 0..total
            invariant
                r.len() == p,
                total == self.range_doppler_output.len(),
                cleared == self.range_doppler_output@,
                forall|p2: int| 0 <= p2 < p ==> r@[p2] == abs_val(cleared[p2]),
        {
            r.push(cpx_abs(self.range_doppler_output[p]));
        }
        proof {
            let ns = n_slow as int;
            let nf = n_fast as int;
            assert forall|d: int, j: int|
                0 <= d < old(self).processor().slow_len() && 0 <= j < old(
                    self,
                ).processor().fast_len() implies r@[d * old(self).processor().fast_len() + j]
                == old(self).displayed_at(d, j) by {
                assert(ns == old(self).processor().slow_len() as int);
                assert(nf == old(self).processor().fast_len() as int);
                let p = d * nf + j;
                lemma_fundamental_div_mod_converse(p, nf, d, j);
                assert(0 <= p < ns * nf) by (nonlinear_arith)
                    requires
                        p == d * nf + j,
                        0 <= d < ns,
                        0 <= j < nf,
                ;
                if old(self).removes_zero() && d == ns / 2 {
                    assert((ns / 2) * nf <= p < (ns / 2) * nf + nf) by (nonlinear_arith)
                        requires
                            p == d * nf + j,
                            d == ns / 2,
                            0 <= j < nf,
                    ;
                } else {
                    if old(self).removes_zero() {
                        assert(!((ns / 2) * nf <= p < (ns / 2) * nf + nf)) by (nonlinear_arith)
                            requires
                                p == d * nf + j,
                                0 <= d < ns,
                                0 <= j < nf,
                                d != ns / 2,
                        ;
                    }
                }
            }
        }
        r
    }
}

} // verus!
