//! Clutter tracking and cancellation.
//!
//! `ClutterMap` tracks the per-range-bin return strength with a complex
//! exponential moving average and reports the strongest bin. The cancellation
//! strategies (`DummyFilter`, `TwoPulseCanceller`, `LeakyIntegratorFilter`)
//! share one in-place capability and are dispatched through the closed
//! `ClutterFilter` variant set.
use vstd::prelude::*;
use vstd::pervasive::VecAdditionalExecFns;
use rustfft::num_complex::Complex32;

use crate::cpx::{
    abs_val, alpha_val, cpx_abs, cpx_add, cpx_from_int, cpx_mul, cpx_re_gt, cpx_sub, cpx_val,
    ema_val, re_gt_val, alpha_from_ppm, sub_val,
};
use crate::SonarError;

verus! {

/// Largest admissible smoothing factor numerator: `alpha` must lie strictly
/// inside `(0, 1)`, so its parts-per-million count lies in `(0, PPM_ONE)`.
pub const PPM_ONE: u32 = 1000000;

/// The whole estimate vector after one exponential-moving-average step.
pub open spec fn ema_seq(alpha: Complex32, est: Seq<Complex32>, imp: Seq<Complex32>) -> Seq<
    Complex32,
> {
    Seq::new(est.len(), |i: int| ema_val(alpha, est[i], imp[i]))
}

/// The index that a forward scan keeping the first strictly-largest magnitude
/// settles on (0 for an empty vector).
pub open spec fn argmax_idx(s: Seq<Complex32>) -> int
    decreases s.len(),
{
    if s.len() <= 1 {
        0
    } else {
        let p = argmax_idx(s.drop_last());
        if re_gt_val(abs_val(s.last()), abs_val(s[p])) {
            s.len() - 1
        } else {
            p
        }
    }
}

pub proof fn lemma_argmax_idx_bounds(s: Seq<Complex32>)
    ensures
        0 <= argmax_idx(s),
        s.len() > 0 ==> argmax_idx(s) < s.len(),
        s.len() == 0 ==> argmax_idx(s) == 0,
    decreases s.len(),
{
    if s.len() > 1 {
        lemma_argmax_idx_bounds(s.drop_last());
    }
}

/// Exponential-moving-average tracker of per-range-bin return strength.
pub struct ClutterMap {
    cluttermap: Vec<Complex32>,
    alpha: Complex32,
    alpha_ppm: u32,
}

impl ClutterMap {
    /// The tracked estimate, one complex value per range bin.
    pub closed spec fn estimate(&self) -> Seq<Complex32> {
        self.cluttermap@
    }

    /// The smoothing factor in parts per million.
    pub closed spec fn alpha_ppm(&self) -> u32 {
        self.alpha_ppm
    }

    pub closed spec fn wf(&self) -> bool {
        &&& self.alpha == alpha_val(self.alpha_ppm as int)
        &&& 0 < self.alpha_ppm < PPM_ONE
    }

    /// A fresh map with every bin at zero.
    ///
    /// The smoothing factor must lie strictly inside `(0, 1)`.
    pub fn new(n_fast: usize, alpha_ppm: u32) -> (r: Result<ClutterMap, SonarError>)
        ensures
            r is Err <==> !(0 < alpha_ppm < PPM_ONE),
            r is Err ==> r == Result::<ClutterMap, SonarError>::Err(SonarError::ConfigurationError),
            r is Ok ==> {
                let m = r->Ok_0;
                &&& m.wf()
                &&& m.alpha_ppm() == alpha_ppm
                &&& m.estimate().len() == n_fast
                &&& forall|i: int| 0 <= i < n_fast ==> m.estimate()[i] == cpx_val(0, 0)
            },
    {
        if !(0 < alpha_ppm && alpha_ppm < PPM_ONE) {
            return Err(SonarError::ConfigurationError);
        }
        let zero = cpx_from_int(0, 0);
        let mut cluttermap: Vec<Complex32> = Vec::new();
        for k in 0..n_fast
            invariant
                cluttermap.len() == k,
                forall|i: int| 0 <= i < k ==> cluttermap@[i] == cpx_val(0, 0),
                zero == cpx_val(0, 0),
        {
            cluttermap.push(zero);
        }
        Ok(ClutterMap { cluttermap, alpha: alpha_from_ppm(alpha_ppm), alpha_ppm })
    }

    /// Fold one pulse into the estimate: for every bin,
    /// `estimate[i] = (1 - alpha) * estimate[i] + alpha * impulse[i]`.
    pub fn process(&mut self, impulse: &Vec<Complex32>)
        requires
            old(self).wf(),
            impulse.len() == old(self).estimate().len(),
        ensures
            final(self).wf(),
            final(self).alpha_ppm() == old(self).alpha_ppm(),
            final(self).estimate() == ema_seq(
                alpha_val(old(self).alpha_ppm() as int),
                old(self).estimate(),
                impulse@,
            ),
    {
        let one = cpx_from_int(1, 0);
        let n = self.cluttermap.len();
        let ghost target = ema_seq(alpha_val(self.alpha_ppm as int), self.cluttermap@, impulse@);
        for i in 0..n
            invariant
                self.wf(),
                self.alpha_ppm == old(self).alpha_ppm,
                n == self.cluttermap.len(),
                n == impulse.len(),
                one == cpx_val(1, 0),
                target == ema_seq(alpha_val(self.alpha_ppm as int), old(self).estimate(), impulse@),
                old(self).estimate().len() == n,
                forall|j: int| i <= j < n ==> self.cluttermap@[j] == old(self).estimate()[j],
                forall|j: int| 0 <= j < i ==> self.cluttermap@[j] == target[j],
        {
            let updated = cpx_add(
                cpx_mul(cpx_sub(one, self.alpha), self.cluttermap[i]),
                cpx_mul(self.alpha, impulse[i]),
            );
            self.cluttermap.set(i, updated);
        }
        assert(self.cluttermap@ =~= target);
    }

    /// A snapshot of the tracked estimate, for display and inspection.
    pub fn estimates(&self) -> (r: Vec<Complex32>)
        ensures
            r@ == self.estimate(),
    {
        let n = self.cluttermap.len();
        let mut r: Vec<Complex32> = Vec::new();
        for i in 0..n
            invariant
                r.len() == i,
                n == self.cluttermap.len(),
                forall|k: int| 0 <= k < i ==> r@[k] == self.estimate()[k],
        {
            r.push(self.cluttermap[i]);
        }
        assert(r@ =~= self.estimate());
        r
    }

    /// The bin index with the largest magnitude estimate; ties are broken in
    /// favor of the first occurrence. An empty map yields 0.
    pub fn argmax(&self) -> (r: usize)
        ensures
            r == argmax_idx(self.estimate()),
            self.estimate().len() > 0 ==> r < self.estimate().len(),
    {
        proof {
            lemma_argmax_idx_bounds(self.estimate());
        }
        let n = self.cluttermap.len();
        if n == 0 {
            return 0;
        }
        let mut max_n: usize = 0;
        for i in 1..n
            invariant
                n == self.cluttermap.len(),
                max_n < i <= n,
                max_n == argmax_idx(self.estimate().take(i as int)),
        {
            let ghost pre = self.estimate().take(i as int);
            let ghost cur = self.estimate().take(i + 1 as int);
            assert(cur.drop_last() =~= pre);
            assert(cur.last() == self.estimate()[i as int]);
            if cpx_re_gt(cpx_abs(self.cluttermap[i]), cpx_abs(self.cluttermap[max_n])) {
                max_n = i;
            }
        }
        assert(self.estimate().take(n as int) =~= self.estimate());
        max_n
    }
}

/// Passthrough cancellation: leaves the pulse untouched.
pub struct DummyFilter {}

impl DummyFilter {
    /// No-op: the pulse is returned unchanged.
    pub fn process_inplace(&mut self, impulse: &mut Vec<Complex32>)
        ensures
            final(impulse)@ == old(impulse)@,
            *final(self) == *old(self),
    {
    }
}

/// The previous pulse subtracted bin by bin: a first-difference high-pass
/// across pulses (moving-target indication).
pub struct TwoPulseCanceller {
    prev: Vec<Complex32>,
}

/// The cancelled pulse: `imp[i] - prev[i]` for every bin.
pub open spec fn two_pulse_out(prev: Seq<Complex32>, imp: Seq<Complex32>) -> Seq<Complex32> {
    Seq::new(imp.len(), |i: int| sub_val(imp[i], prev[i]))
}

impl TwoPulseCanceller {
    /// The retained previous pulse.
    pub closed spec fn prev_seq(&self) -> Seq<Complex32> {
        self.prev@
    }

    /// A canceller whose retained pulse is all zeros.
    pub fn new(n_fast: usize) -> (r: TwoPulseCanceller)
        ensures
            r.prev_seq().len() == n_fast,
            forall|i: int| 0 <= i < n_fast ==> r.prev_seq()[i] == cpx_val(0, 0),
    {
        let zero = cpx_from_int(0, 0);
        let mut prev: Vec<Complex32> = Vec::new();
        for k in 0..n_fast
            invariant
                prev.len() == k,
                forall|i: int| 0 <= i < k ==> prev@[i] == cpx_val(0, 0),
                zero == cpx_val(0, 0),
        {
            prev.push(zero);
        }
        TwoPulseCanceller { prev }
    }

    /// Subtract the retained pulse from the incoming one, then retain the
    /// incoming pulse (its pre-subtraction value) for the next call.
    pub fn process_inplace(&mut self, impulse: &mut Vec<Complex32>)
        requires
            old(impulse).len() == old(self).prev_seq().len(),
        ensures
            final(impulse)@ == two_pulse_out(old(self).prev_seq(), old(impulse)@),
            final(self).prev_seq() == old(impulse)@,
    {
        let n = self.prev.len();
        for i in 0..n
            invariant
                n == self.prev.len(),
                n == impulse.len(),
                n == old(impulse).len(),
                n == old(self).prev_seq().len(),
                forall|j: int| i <= j < n ==> impulse@[j] == old(impulse)@[j],
                forall|j: int| i <= j < n ==> self.prev@[j] == old(self).prev_seq()[j],
                forall|j: int|
                    0 <= j < i ==> impulse@[j] == sub_val(
                        old(impulse)@[j],
                        old(self).prev_seq()[j],
                    ),
                forall|j: int| 0 <= j < i ==> self.prev@[j] == old(impulse)@[j],
        {
            let tmp = impulse[i];
            impulse.set(i, cpx_sub(tmp, self.prev[i]));
            self.prev.set(i, tmp);
        }
        assert(impulse@ =~= two_pulse_out(old(self).prev_seq(), old(impulse)@));
        assert(self.prev@ =~= old(impulse)@);
    }
}

/// A leaky integrator: tracks its own exponential moving average and actively
/// subtracts the updated estimate from each pulse.
pub struct LeakyIntegratorFilter {
    cluttermap: Vec<Complex32>,
    alpha: Complex32,
    alpha_ppm: u32,
}

/// The cancelled pulse of the leaky integrator: each bin minus the bin's
/// freshly updated estimate.
pub open spec fn leaky_out(alpha: Complex32, est: Seq<Complex32>, imp: Seq<Complex32>) -> Seq<
    Complex32,
> {
    Seq::new(imp.len(), |i: int| sub_val(imp[i], ema_val(alpha, est[i], imp[i])))
}

impl LeakyIntegratorFilter {
    /// The tracked estimate.
    pub closed spec fn estimate(&self) -> Seq<Complex32> {
        self.cluttermap@
    }

    /// The smoothing factor in parts per million.
    pub closed spec fn alpha_ppm(&self) -> u32 {
        self.alpha_ppm
    }

    pub closed spec fn wf(&self) -> bool {
        &&& self.alpha == alpha_val(self.alpha_ppm as int)
        &&& 0 < self.alpha_ppm < PPM_ONE
    }

    /// A fresh filter with every estimate bin at zero.
    ///
    /// The smoothing factor must lie strictly inside `(0, 1)`.
    pub fn new(n_fast: usize, alpha_ppm: u32) -> (r: Result<LeakyIntegratorFilter, SonarError>)
        ensures
            r is Err <==> !(0 < alpha_ppm < PPM_ONE),
            r is Err ==> r == Result::<LeakyIntegratorFilter, SonarError>::Err(
                SonarError::ConfigurationError,
            ),
            r is Ok ==> {
                let f = r->Ok_0;
                &&& f.wf()
                &&& f.alpha_ppm() == alpha_ppm
                &&& f.estimate().len() == n_fast
                &&& forall|i: int| 0 <= i < n_fast ==> f.estimate()[i] == cpx_val(0, 0)
            },
    {
        if !(0 < alpha_ppm && alpha_ppm < PPM_ONE) {
            return Err(SonarError::ConfigurationError);
        }
        let zero = cpx_from_int(0, 0);
        let mut cluttermap: Vec<Complex32> = Vec::new();
        for k in 0..n_fast
            invariant
                cluttermap.len() == k,
                forall|i: int| 0 <= i < k ==> cluttermap@[i] == cpx_val(0, 0),
                zero == cpx_val(0, 0),
        {
            cluttermap.push(zero);
        }
        Ok(LeakyIntegratorFilter { cluttermap, alpha: alpha_from_ppm(alpha_ppm), alpha_ppm })
    }

    /// Update the estimate of every bin and subtract the updated estimate
    /// from the pulse in place.
    pub fn process_inplace(&mut self, impulse: &mut Vec<Complex32>)
        requires
            old(self).wf(),
            old(impulse).len() == old(self).estimate().len(),
        ensures
            final(self).wf(),
            final(self).alpha_ppm() == old(self).alpha_ppm(),
            final(self).estimate() == ema_seq(
                alpha_val(old(self).alpha_ppm() as int),
                old(self).estimate(),
                old(impulse)@,
            ),
            final(impulse)@ == leaky_out(
                alpha_val(old(self).alpha_ppm() as int),
                old(self).estimate(),
                old(impulse)@,
            ),
    {
        let one = cpx_from_int(1, 0);
        let n = self.cluttermap.len();
        let ghost a = alpha_val(self.alpha_ppm as int);
        for i in 0..n
            invariant
                self.wf(),
                self.alpha_ppm == old(self).alpha_ppm,
                a == alpha_val(self.alpha_ppm as int),
                n == self.cluttermap.len(),
                n == impulse.len(),
                n == old(impulse).len(),
                n == old(self).estimate().len(),
                one == cpx_val(1, 0),
                forall|j: int| i <= j < n ==> self.cluttermap@[j] == old(self).estimate()[j],
                forall|j: int| i <= j < n ==> impulse@[j] == old(impulse)@[j],
                forall|j: int|
                    0 <= j < i ==> self.cluttermap@[j] == ema_val(
                        a,
                        old(self).estimate()[j],
                        old(impulse)@[j],
                    ),
                forall|j: int|
                    0 <= j < i ==> impulse@[j] == sub_val(
                        old(impulse)@[j],
                        ema_val(a, old(self).estimate()[j], old(impulse)@[j]),
                    ),
        {
            let updated = cpx_add(
                cpx_mul(cpx_sub(one, self.alpha), self.cluttermap[i]),
                cpx_mul(self.alpha, impulse[i]),
            );
            self.cluttermap.set(i, updated);
            impulse.set(i, cpx_sub(impulse[i], updated));
        }
        assert(self.cluttermap@ =~= ema_seq(a, old(self).estimate(), old(impulse)@));
        assert(impulse@ =~= leaky_out(a, old(self).estimate(), old(impulse)@));
    }
}


/// Law (two-pulse repeat cancellation): after one call on pulse `v`, the
/// canceller retains `v`; a second call on the same pulse therefore yields,
/// in every bin, the difference of a sample with itself. That this
/// difference is the zero sample is a floating-point fact, exercised by the
/// accompanying tests. `f1` is the state after the first call, `out2` the
/// pulse left by the second call.
pub proof fn lemma_two_pulse_repeat(
    f1: TwoPulseCanceller,
    out2: Seq<Complex32>,
    v: Seq<Complex32>,
)
    requires
        f1.prev_seq() == v,
        out2 == two_pulse_out(f1.prev_seq(), v),
    ensures
        out2.len() == v.len(),
        forall|i: int| 0 <= i < v.len() ==> out2[i] == sub_val(v[i], v[i]),
{
}

/// The closed set of interchangeable cancellation strategies.
///
/// All variants share the same in-place call contract and are selected once
/// at construction.
pub enum ClutterFilter {
    Dummy(DummyFilter),
    TwoPulse(TwoPulseCanceller),
    Leaky(LeakyIntegratorFilter),
}

impl ClutterFilter {
    /// Whether the strategy accepts pulses of `len` range bins.
    pub open spec fn accepts(&self, len: nat) -> bool {
        match self {
            ClutterFilter::Dummy(_) => true,
            ClutterFilter::TwoPulse(f) => f.prev_seq().len() == len,
            ClutterFilter::Leaky(f) => f.wf() && f.estimate().len() == len,
        }
    }

    /// The cancelled pulse that one in-place call leaves behind.
    pub open spec fn filter_out(&self, imp: Seq<Complex32>) -> Seq<Complex32> {
        match self {
            ClutterFilter::Dummy(_) => imp,
            ClutterFilter::TwoPulse(f) => two_pulse_out(f.prev_seq(), imp),
            ClutterFilter::Leaky(f) => leaky_out(
                alpha_val(f.alpha_ppm() as int),
                f.estimate(),
                imp,
            ),
        }
    }

    /// How the strategy's own state looks after one in-place call.
    pub open spec fn stepped(&self, post: &ClutterFilter, imp: Seq<Complex32>) -> bool {
        match self {
            ClutterFilter::Dummy(_) => post is Dummy,
            ClutterFilter::TwoPulse(_) => post is TwoPulse && post->TwoPulse_0.prev_seq() == imp,
            ClutterFilter::Leaky(f) => post is Leaky && {
                let g = post->Leaky_0;
                &&& g.alpha_ppm() == f.alpha_ppm()
                &&& g.estimate() == ema_seq(alpha_val(f.alpha_ppm() as int), f.estimate(), imp)
            },
        }
    }

    /// Apply the selected strategy in place to one pulse.
    pub fn process_inplace(&mut self, impulse: &mut Vec<Complex32>)
        requires
            old(self).accepts(old(impulse).len() as nat),
        ensures
            final(impulse)@ == old(self).filter_out(old(impulse)@),
            old(self).stepped(final(self), old(impulse)@),
            final(self).accepts(old(impulse).len() as nat),
    {
        match self {
            ClutterFilter::Dummy(f) => f.process_inplace(impulse),
            ClutterFilter::TwoPulse(f) => f.process_inplace(impulse),
            ClutterFilter::Leaky(f) => f.process_inplace(impulse),
        }
    }
}

} // verus!
