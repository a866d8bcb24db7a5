//! Pulse history and the range-Doppler transform.
//!
//! `RangeDopplerProcessor` keeps the last `n_slow` compressed pulses in a
//! circular data cube. On demand it reorders each range bin's history into
//! chronological order, runs the slow-time FFT, and writes the FFT-shifted
//! Doppler spectrum into a row-major output matrix, optionally rotating the
//! range axis so that a tracked bin lands in column 0.
use vstd::prelude::*;
use vstd::pervasive::VecAdditionalExecFns;
use vstd::arithmetic::div_mod::{
    lemma_fundamental_div_mod, lemma_fundamental_div_mod_converse, lemma_mod_bound,
    lemma_small_mod,
};
use rustfft::num_complex::Complex32;

use crate::cpx::cpx_from_int;
use crate::cpx::cpx_val;
use crate::fft::{fft_forward, fft_val};
use crate::SonarError;

verus! {

/// The split point of an FFT shift: the larger half moves to the front.
pub open spec fn shift_split(n: int) -> int {
    if n % 2 == 0 {
        n / 2
    } else {
        n / 2 + 1
    }
}

/// A spectrum reordered so that the zero-frequency bin is centered: the tail
/// from the split point comes first, then the head.
pub open spec fn fftshift_seq<A>(s: Seq<A>) -> Seq<A> {
    s.skip(shift_split(s.len() as int)) + s.take(shift_split(s.len() as int))
}

/// Write the FFT shift of `input` into `output`: for even length the second
/// half leads, for odd length the split lies one past the middle.
pub fn fftshift_into<A: Copy>(input: &Vec<A>, output: &mut Vec<A>)
    requires
        old(output).len() == input.len(),
    ensures
        final(output)@ == fftshift_seq(input@),
{
    let n = input.len();
    let split = if n % 2 == 0 {
        n / 2
    } else {
        n / 2 + 1
    };
    let lead = n - split;
    for i in 0..lead
        invariant
            n == input.len(),
            n == output.len(),
            split == shift_split(n as int),
            lead == n - split,
            forall|k: int| 0 <= k < i ==> output@[k] == input@[split + k],
    {
        output.set(i, input[split + i]);
    }
    for i in 0..split
        invariant
            n == input.len(),
            n == output.len(),
            split == shift_split(n as int),
            lead == n - split,
            forall|k: int| 0 <= k < lead ==> output@[k] == input@[split + k],
            forall|k: int| 0 <= k < i ==> output@[lead + k] == input@[k],
    {
        output.set(lead + i, input[i]);
    }
    assert(output@ =~= fftshift_seq(input@));
}

/// Circular history of the last `n_slow` pulses and the slow-time transform.
pub struct RangeDopplerProcessor {
    impulse_counter: usize,
    fast_time_shift: usize,
    n_fast: usize,
    data_cube: Vec<Vec<Complex32>>,
    fft_buffer: Vec<Complex32>,
}

impl RangeDopplerProcessor {
    /// The pulse history: row `r` is the pulse written while the cursor stood
    /// at `r`.
    pub closed spec fn cube(&self) -> Seq<Seq<Complex32>> {
        self.data_cube@.map_values(|row: Vec<Complex32>| row@)
    }

    /// Slow-time depth: how many pulses are retained.
    pub closed spec fn slow_len(&self) -> nat {
        self.data_cube@.len()
    }

    /// Range-bin count of each pulse.
    pub closed spec fn fast_len(&self) -> nat {
        self.n_fast as nat
    }

    /// The write cursor, always in `[0, n_slow)`.
    pub closed spec fn cur(&self) -> int {
        self.impulse_counter as int
    }

    /// The configured circular rotation of the range axis.
    pub closed spec fn shift_amount(&self) -> int {
        self.fast_time_shift as int
    }

    /// The reusable slow-time scratch has the right length.
    pub closed spec fn scratch_ok(&self) -> bool {
        self.fft_buffer@.len() == self.slow_len()
    }

    pub open spec fn wf(&self) -> bool {
        &&& self.slow_len() >= 1
        &&& self.fast_len() >= 1
        &&& 0 <= self.cur() < self.slow_len()
        &&& 0 <= self.shift_amount() < self.fast_len()
        &&& forall|r: int|
            0 <= r < self.slow_len() ==> (#[trigger] self.cube()[r]).len() == self.fast_len()
        &&& self.scratch_ok()
    }

    /// A processor with an all-zero history, cursor 0 and no range rotation.
    ///
    /// Both dimensions must be at least 1.
    pub fn new(n_slow: usize, n_fast: usize) -> (r: Result<RangeDopplerProcessor, SonarError>)
        ensures
            r is Err <==> (n_slow == 0 || n_fast == 0),
            r is Err ==> r == Result::<RangeDopplerProcessor, SonarError>::Err(
                SonarError::ConfigurationError,
            ),
            r is Ok ==> {
                let p = r->Ok_0;
                &&& p.wf()
                &&& p.slow_len() == n_slow
                &&& p.fast_len() == n_fast
                &&& p.cur() == 0
                &&& p.shift_amount() == 0
                &&& forall|r2: int, c: int|
                    0 <= r2 < n_slow && 0 <= c < n_fast ==> p.cube()[r2][c] == cpx_val(0, 0)
            },
    {
        if n_slow == 0 || n_fast == 0 {
            return Err(SonarError::ConfigurationError);
        }
        let zero = cpx_from_int(0, 0);
        let mut data_cube: Vec<Vec<Complex32>> = Vec::new();
        for r in 0..n_slow
            invariant
                data_cube.len() == r,
                zero == cpx_val(0, 0),
                forall|r2: int| 0 <= r2 < r ==> (#[trigger] data_cube@[r2])@.len() == n_fast,
                forall|r2: int, c: int|
                    0 <= r2 < r && 0 <= c < n_fast ==> data_cube@[r2]@[c] == cpx_val(0, 0),
        {
            let mut row: Vec<Complex32> = Vec::new();
            for c in 0..n_fast
                invariant
                    row.len() == c,
                    zero == cpx_val(0, 0),
                    forall|c2: int| 0 <= c2 < c ==> row@[c2] == cpx_val(0, 0),
            {
                row.push(zero);
            }
            data_cube.push(row);
        }
        let mut fft_buffer: Vec<Complex32> = Vec::new();
        for s in 0..n_slow
            invariant
                fft_buffer.len() == s,
        {
            fft_buffer.push(zero);
        }
        Ok(
            RangeDopplerProcessor {
                impulse_counter: 0,
                fast_time_shift: 0,
                n_fast,
                data_cube,
                fft_buffer,
            },
        )
    }

    /// Slow-time depth of the history.
    pub fn n_slow(&self) -> (r: usize)
        ensures
            r == self.slow_len(),
    {
        self.data_cube.len()
    }

    /// Range-bin count of each pulse.
    pub fn n_fast(&self) -> (r: usize)
        ensures
            r == self.fast_len(),
    {
        self.n_fast
    }

    /// The current write cursor.
    pub fn cursor(&self) -> (r: usize)
        ensures
            r == self.cur(),
    {
        self.impulse_counter
    }

    /// A copy of the row the next pulse will overwrite.
    pub fn input_buffer(&self) -> (r: Vec<Complex32>)
        requires
            self.wf(),
        ensures
            r@ == self.cube()[self.cur()],
    {
        let mut r: Vec<Complex32> = Vec::new();
        let row = &self.data_cube[self.impulse_counter];
        let n = row.len();
        for c in 0..n
            invariant
                r.len() == c,
                n == row.len(),
                row@ == self.cube()[self.cur()],
                forall|c2: int| 0 <= c2 < c ==> r@[c2] == row@[c2],
        {
            r.push(row[c]);
        }
        assert(r@ =~= self.cube()[self.cur()]);
        r
    }

    /// Overwrite the row at the cursor with one compressed pulse.
    pub fn set_input_row(&mut self, row: &Vec<Complex32>)
        requires
            old(self).wf(),
            row.len() == old(self).fast_len(),
        ensures
            final(self).wf(),
            final(self).cube() == old(self).cube().update(old(self).cur(), row@),
            final(self).slow_len() == old(self).slow_len(),
            final(self).fast_len() == old(self).fast_len(),
            final(self).cur() == old(self).cur(),
            final(self).shift_amount() == old(self).shift_amount(),
    {
        let n = row.len();
        let mut copy: Vec<Complex32> = Vec::new();
        for c in 0..n
            invariant
                copy.len() == c,
                n == row.len(),
                forall|c2: int| 0 <= c2 < c ==> copy@[c2] == row@[c2],
        {
            copy.push(row[c]);
        }
        assert(copy@ =~= row@);
        self.data_cube.set(self.impulse_counter, copy);
        assert(self.cube() =~= old(self).cube().update(old(self).cur(), row@));
    }

    /// Advance the cursor by one pulse, wrapping at `n_slow`.
    pub fn next_impulse(&mut self)
        requires
            old(self).wf(),
        ensures
            final(self).wf(),
            final(self).cur() == (old(self).cur() + 1) % (old(self).slow_len() as int),
            final(self).cube() == old(self).cube(),
            final(self).slow_len() == old(self).slow_len(),
            final(self).fast_len() == old(self).fast_len(),
            final(self).shift_amount() == old(self).shift_amount(),
    {
        let n = self.data_cube.len();
        self.impulse_counter = self.impulse_counter + 1;
        if self.impulse_counter == n {
            self.impulse_counter = 0;
        }
        proof {
            if old(self).cur() + 1 < n {
                lemma_small_mod((old(self).cur() + 1) as nat, n as nat);
            } else {
                assert((n as int) % (n as int) == 0) by (nonlinear_arith)
                    requires
                        n >= 1,
                ;
            }
            assert forall|r: int| 0 <= r < self.slow_len() implies (#[trigger] self.cube()[r]).len() == self.fast_len() by {
                assert(self.cube()[r] == old(self).cube()[r]);
            }
        }
    }

    /// Rotate the range axis: output column 0 will correspond to physical
    /// range bin `shift`.
    pub fn set_fast_time_shift(&mut self, shift: usize)
        requires
            old(self).wf(),
            shift < old(self).fast_len(),
        ensures
            final(self).wf(),
            final(self).shift_amount() == shift,
            final(self).cube() == old(self).cube(),
            final(self).slow_len() == old(self).slow_len(),
            final(self).fast_len() == old(self).fast_len(),
            final(self).cur() == old(self).cur(),
    {
        self.fast_time_shift = shift;
        proof {
            assert forall|r: int| 0 <= r < self.slow_len() implies (#[trigger] self.cube()[r]).len() == self.fast_len() by {
                assert(self.cube()[r] == old(self).cube()[r]);
            }
        }
    }

    /// Range bin `c`'s history in chronological order: the row at the cursor
    /// is the oldest retained pulse.
    pub open spec fn chrono_col(&self, c: int) -> Seq<Complex32> {
        Seq::new(
            self.slow_len(),
            |s: int| self.cube()[(self.cur() + s) % (self.slow_len() as int)][c],
        )
    }

    /// The displayed Doppler spectrum of range bin `c`: slow-time FFT of the
    /// chronological history, FFT-shifted so zero Doppler is centered.
    pub open spec fn doppler_col(&self, c: int) -> Seq<Complex32> {
        fftshift_seq(fft_val(self.chrono_col(c)))
    }

    /// The value at Doppler row `d`, output column `j` of the range-Doppler
    /// map: the spectrum of the physical bin `(j + shift) mod n_fast`.
    pub open spec fn map_at(&self, d: int, j: int) -> Complex32 {
        self.doppler_col((j + self.shift_amount()) % (self.fast_len() as int))[d]
    }

    /// Compute the range-Doppler map into `output` (row-major,
    /// `n_slow * n_fast`): per range bin the chronological slow-time history
    /// is transformed and FFT-shifted; the range axis is rotated left by the
    /// configured shift.
    pub fn range_doppler(&mut self, output: &mut Vec<Complex32>)
        requires
            old(self).wf(),
            old(output).len() == old(self).slow_len() * old(self).fast_len(),
        ensures
            final(self).wf(),
            final(self).cube() == old(self).cube(),
            final(self).slow_len() == old(self).slow_len(),
            final(self).fast_len() == old(self).fast_len(),
            final(self).cur() == old(self).cur(),
            final(self).shift_amount() == old(self).shift_amount(),
            final(output).len() == old(output).len(),
            forall|d: int, j: int|
                0 <= d < old(self).slow_len() && 0 <= j < old(self).fast_len() ==> final(output)@[d * old(self).fast_len() + j] == old(self).map_at(d, j),
    {
        let n_slow = self.data_cube.len();
        let n_fast = self.n_fast;
        for j in 0..n_fast
            invariant
                self.wf(),
                self.cube() == old(self).cube(),
                self.slow_len() == old(self).slow_len(),
                self.fast_len() == old(self).fast_len(),
                self.cur() == old(self).cur(),
                self.shift_amount() == old(self).shift_amount(),
                n_slow == self.slow_len(),
                n_fast == self.fast_len(),
                output.len() == n_slow * n_fast,
                forall|d2: int, j2: int|
                    #![trigger self.map_at(d2, j2)]
                    self.map_at(d2, j2) == old(self).map_at(d2, j2),
                forall|p: int|
                    0 <= p < n_slow * n_fast && p % (n_fast as int) < j ==> output@[p] == old(
                        self,
                    ).map_at(p / (n_fast as int), p % (n_fast as int)),
        {
            let ghost pre = *self;
            self.transform_column(j, output);
            proof {
                assert forall|d2: int, j2: int| #![trigger self.map_at(d2, j2)]
                    self.map_at(d2, j2) == old(self).map_at(d2, j2) by {
                    assert(self.map_at(d2, j2) == pre.map_at(d2, j2));
                }
                assert forall|p: int|
                    0 <= p < n_slow * n_fast && p % (n_fast as int) < j + 1 implies output@[p]
                    == old(self).map_at(p / (n_fast as int), p % (n_fast as int)) by {
                    let nf = n_fast as int;
                    lemma_fundamental_div_mod(p, nf);
                    let d = p / nf;
                    let m = p % nf;
                    assert(0 <= d < n_slow as int) by (nonlinear_arith)
                        requires
                            p == nf * d + m,
                            0 <= m < nf,
                            0 <= p < (n_slow as int) * nf,
                    ;
                    if m == j {
                        assert(p == d * nf + j);
                        assert(output@[d * nf + j] == pre.map_at(d, j as int));
                    }
                }
            }
        }
        proof {
            assert forall|d: int, j: int|
                0 <= d < old(self).slow_len() && 0 <= j < old(self).fast_len() implies output@[d
                * old(self).fast_len() + j] == old(self).map_at(d, j) by {
                let nf = old(self).fast_len() as int;
                let ns = old(self).slow_len() as int;
                let p = d * nf + j;
                lemma_fundamental_div_mod_converse(p, nf, d, j);
                assert(0 <= p < ns * nf) by (nonlinear_arith)
                    requires
                        p == d * nf + j,
                        0 <= d < ns,
                        0 <= j < nf,
                ;
            }
        }
    }

    /// Fill output column `j` with the shifted Doppler spectrum of its
    /// source range bin.
    fn transform_column(&mut self, j: usize, output: &mut Vec<Complex32>)
        requires
            old(self).wf(),
            j < old(self).fast_len(),
            old(output).len() == old(self).slow_len() * old(self).fast_len(),
        ensures
            final(self).wf(),
            final(self).cube() == old(self).cube(),
            final(self).slow_len() == old(self).slow_len(),
            final(self).fast_len() == old(self).fast_len(),
            final(self).cur() == old(self).cur(),
            final(self).shift_amount() == old(self).shift_amount(),
            forall|d: int, j2: int|
                #![trigger final(self).map_at(d, j2)]
                final(self).map_at(d, j2) == old(self).map_at(d, j2),
            final(output).len() == old(output).len(),
            forall|p: int|
                0 <= p < old(output).len() && p % (old(self).fast_len() as int) != j ==> final(output)@[p] == old(output)@[p],
            forall|d: int|
                0 <= d < old(self).slow_len() ==> final(output)@[d * old(self).fast_len() + j]
                    == old(self).map_at(d, j as int),
    {
        let n_slow = self.data_cube.len();
        let n_fast = self.n_fast;
        let shift = self.fast_time_shift;
        let src = if j < n_fast - shift {
            j + shift
        } else {
            j - (n_fast - shift)
        };
        proof {
            if j + shift < n_fast {
                lemma_small_mod((j + shift) as nat, n_fast as nat);
            } else {
                assert((j + shift) % (n_fast as int) == j + shift - n_fast) by (nonlinear_arith)
                    requires
                        n_fast as int >= 1,
                        n_fast <= j + shift < 2 * n_fast,
                ;
            }
            assert(src == (j + self.shift_amount()) % (self.fast_len() as int));
        }
        let cursor = self.impulse_counter;
        let ghost chron = old(self).chrono_col(src as int);
        for s in 0..n_slow
            invariant
                self.data_cube == old(self).data_cube,
                self.impulse_counter == old(self).impulse_counter,
                self.fast_time_shift == old(self).fast_time_shift,
                self.n_fast == old(self).n_fast,
                self.fft_buffer@.len() == n_slow,
                old(self).wf(),
                n_slow == self.slow_len(),
                n_fast == self.fast_len(),
                cursor == self.cur(),
                src < n_fast,
                chron == old(self).chrono_col(src as int),
                forall|s2: int| 0 <= s2 < s ==> self.fft_buffer@[s2] == chron[s2],
        {
            let idx = if s < n_slow - cursor {
                cursor + s
            } else {
                s - (n_slow - cursor)
            };
            proof {
                if cursor + s < n_slow {
                    lemma_small_mod((cursor + s) as nat, n_slow as nat);
                } else {
                    assert((cursor + s) % (n_slow as int) == cursor + s - n_slow)
                        by (nonlinear_arith)
                        requires
                            n_slow as int >= 1,
                            n_slow <= cursor + s < 2 * n_slow,
                    ;
                }
            }
            proof {
                assert(self.cube()[idx as int] == self.data_cube@[idx as int]@);
                assert(old(self).cube()[idx as int].len() == n_fast);
            }
            let v = self.data_cube[idx][src];
            self.fft_buffer.set(s, v);
        }
        assert(self.fft_buffer@ =~= chron);
        fft_forward(&mut self.fft_buffer);
        assert(self.fft_buffer@ == fft_val(chron));
        let split = if n_slow % 2 == 0 {
            n_slow / 2
        } else {
            n_slow / 2 + 1
        };
        let lead = n_slow - split;
        let ghost spectrum = fftshift_seq(fft_val(chron));
        proof {
            assert(spectrum.len() == n_slow);
        }
        for d in 0..n_slow
            invariant
                self.data_cube == old(self).data_cube,
                self.impulse_counter == old(self).impulse_counter,
                self.fast_time_shift == old(self).fast_time_shift,
                self.n_fast == old(self).n_fast,
                self.fft_buffer@.len() == n_slow,
                old(self).wf(),
                n_slow == self.slow_len(),
                n_fast == self.fast_len(),
                j < n_fast,
                split == shift_split(n_slow as int),
                lead == n_slow - split,
                self.fft_buffer@ == fft_val(chron),
                spectrum == fftshift_seq(fft_val(chron)),
                spectrum.len() == n_slow,
                output.len() == n_slow * n_fast,
                forall|p: int|
                    0 <= p < output@.len() && p % (n_fast as int) != j ==> output@[p] == old(
                        output,
                    )@[p],
                forall|d2: int| 0 <= d2 < d ==> output@[d2 * n_fast + j] == spectrum[d2],
        {
            let val = if d < lead {
                self.fft_buffer[split + d]
            } else {
                self.fft_buffer[d - lead]
            };
            proof {
                assert(spectrum[d as int] == val);
            }
            proof {
                assert(d * n_fast + j < n_slow * n_fast) by (nonlinear_arith)
                    requires
                        0 <= (d as int) < n_slow as int,
                        0 <= (j as int) < n_fast as int,
                ;
                assert(d * n_fast >= 0) by (nonlinear_arith)
                    requires
                        0 <= d as int,
                        0 <= n_fast as int,
                ;
                lemma_fundamental_div_mod_converse(
                    d as int * n_fast as int + j as int,
                    n_fast as int,
                    d as int,
                    j as int,
                );
            }
            let pos = d * n_fast + j;
            output.set(pos, val);
            proof {
                assert forall|d2: int| 0 <= d2 < d + 1 implies output@[d2 * n_fast + j]
                    == spectrum[d2] by {
                    lemma_fundamental_div_mod_converse(
                        d2 * (n_fast as int) + j as int,
                        n_fast as int,
                        d2,
                        j as int,
                    );
                    assert(0 <= d2 * (n_fast as int) + j < n_slow * n_fast) by (nonlinear_arith)
                        requires
                            0 <= d2 < n_slow as int,
                            0 <= (j as int) < n_fast as int,
                    ;
                }
            }
        }
        proof {
            assert(self.cube() =~= old(self).cube());
            assert forall|c: int| true implies self.chrono_col(c) == old(self).chrono_col(c) by {
                assert(self.chrono_col(c) =~= old(self).chrono_col(c));
            }
            assert forall|d: int, j2: int| #![trigger self.map_at(d, j2)]
                self.map_at(d, j2) == old(self).map_at(d, j2) by {
                assert(self.chrono_col((j2 + self.shift_amount()) % (self.fast_len() as int))
                    == old(self).chrono_col(
                    (j2 + old(self).shift_amount()) % (old(self).fast_len() as int),
                ));
            }
            assert forall|d: int| 0 <= d < old(self).slow_len() implies output@[d * old(
                self,
            ).fast_len() + j] == old(self).map_at(d, j as int) by {
                assert(old(self).map_at(d, j as int) == spectrum[d]);
            }
        }
    }
}

/// The cursor value after `m` single advances modulo `n`.
pub open spec fn advanced_cursor(c: int, m: nat, n: int) -> int
    decreases m,
{
    if m == 0 {
        c
    } else {
        (advanced_cursor(c, (m - 1) as nat, n) + 1) % n
    }
}

/// After `m` advances the cursor stands at `(c + m) % n`.
pub proof fn lemma_cursor_advances(c: int, m: nat, n: int)
    requires
        0 <= c < n,
    ensures
        advanced_cursor(c, m, n) == (c + m) % n,
    decreases m,
{
    if m == 0 {
        lemma_small_mod(c as nat, n as nat);
    } else {
        lemma_cursor_advances(c, (m - 1) as nat, n);
        lemma_mod_bound(c + m - 1, n);
        lemma_fundamental_div_mod(c + m - 1, n);
        let r = (c + m - 1) % n;
        if r + 1 < n {
            lemma_small_mod((r + 1) as nat, n as nat);
            assert((c + m) % n == r + 1) by (nonlinear_arith)
                requires
                    0 < n,
                    0 <= r < n,
                    r == (c + m - 1) % n,
                    c + m - 1 == n * ((c + m - 1) / n) + r,
                    r + 1 < n,
            ;
        } else {
            assert((c + m) % n == 0) by (nonlinear_arith)
                requires
                    0 < n,
                    r == n - 1,
                    c + m - 1 == n * ((c + m - 1) / n) + r,
            ;
            assert((r + 1) % n == 0) by (nonlinear_arith)
                requires
                    0 < n,
                    r == n - 1,
            ;
        }
    }
}

/// Law (circular cursor wraparound): exactly `n` advances return the cursor
/// to its starting value.
pub proof fn lemma_cursor_wraparound(c: int, n: int)
    requires
        0 <= c < n,
    ensures
        advanced_cursor(c, n as nat, n) == c,
{
    lemma_cursor_advances(c, n as nat, n);
    assert((c + n) % n == c) by (nonlinear_arith)
        requires
            0 <= c < n,
    ;
}

impl RangeDopplerProcessor {
    /// The retained pulses in chronological order: entry 0 is the oldest.
    pub open spec fn chrono_rows(&self) -> Seq<Seq<Complex32>> {
        Seq::new(
            self.slow_len(),
            |s: int| self.cube()[(self.cur() + s) % (self.slow_len() as int)],
        )
    }

    /// Law (history slide): writing one pulse at the cursor and advancing
    /// once drops the oldest chronological row and appends the new pulse, so
    /// the cube always holds exactly the last `n_slow` pulses. `p1` is the
    /// state after `set_input_row(row)` on `p0`; `p2` the state after
    /// `next_impulse` on `p1`.
    pub proof fn lemma_history_slide(
        p0: RangeDopplerProcessor,
        p1: RangeDopplerProcessor,
        p2: RangeDopplerProcessor,
        row: Seq<Complex32>,
    )
        requires
            p0.wf(),
            p1.cube() == p0.cube().update(p0.cur(), row),
            p1.cur() == p0.cur(),
            p1.slow_len() == p0.slow_len(),
            p2.cube() == p1.cube(),
            p2.cur() == (p1.cur() + 1) % (p1.slow_len() as int),
            p2.slow_len() == p1.slow_len(),
        ensures
            p2.chrono_rows() == p0.chrono_rows().skip(1).push(row),
    {
        let n = p0.slow_len() as int;
        let c = p0.cur();
        assert forall|s: int| 0 <= s < n implies p2.chrono_rows()[s] == p0.chrono_rows().skip(
            1,
        ).push(row)[s] by {
            let t = s + 1;
            lemma_mod_bound(c + 1, n);
            if c + 1 < n {
                lemma_small_mod((c + 1) as nat, n as nat);
            } else {
                assert((c + 1) % n == 0) by (nonlinear_arith)
                    requires
                        c + 1 == n,
                        0 < n,
                ;
            }
            if c + t < n {
                lemma_small_mod((c + t) as nat, n as nat);
                assert((p2.cur() + s) % n == c + t) by (nonlinear_arith)
                    requires
                        0 < n,
                        0 <= c < n,
                        0 <= s < n,
                        t == s + 1,
                        c + t < n,
                        p2.cur() == (c + 1) % n,
                        (c + 1) % n == (if c + 1 < n { c + 1 } else { 0 }),
                        (c + t) % n == c + t,
                ;
            } else {
                assert((c + t) % n == c + t - n) by (nonlinear_arith)
                    requires
                        0 < n,
                        n <= c + t < 2 * n,
                ;
                assert((p2.cur() + s) % n == c + t - n) by (nonlinear_arith)
                    requires
                        0 < n,
                        0 <= c < n,
                        0 <= s < n,
                        t == s + 1,
                        n <= c + t < 2 * n,
                        p2.cur() == (c + 1) % n,
                        (c + 1) % n == (if c + 1 < n { c + 1 } else { 0 }),
                ;
            }
            if s < n - 1 {
                assert((c + t) % n != c) by (nonlinear_arith)
                    requires
                        0 < n,
                        0 <= c < n,
                        1 <= t < n,
                        (c + t) % n == (if c + t < n { c + t } else { c + t - n }),
                ;
            } else {
                assert((c + t) % n == c) by (nonlinear_arith)
                    requires
                        0 < n,
                        0 <= c < n,
                        t == n,
                        (c + t) % n == (if c + t < n { c + t } else { c + t - n }),
                ;
            }
        }
        assert(p2.chrono_rows() =~= p0.chrono_rows().skip(1).push(row));
    }

    /// Law (fast-time shift rotation): with the range axis rotated by `k`,
    /// the map value at output column `j` is the unrotated map's value at
    /// column `(j + k) mod n_fast`, for every populated Doppler row. `p0` is
    /// any processor with the same history and cursor as `pk` but shift 0.
    pub proof fn lemma_fast_time_shift_rotation(
        p0: RangeDopplerProcessor,
        pk: RangeDopplerProcessor,
        d: int,
        j: int,
    )
        requires
            p0.wf(),
            pk.wf(),
            p0.cube() == pk.cube(),
            p0.cur() == pk.cur(),
            p0.slow_len() == pk.slow_len(),
            p0.fast_len() == pk.fast_len(),
            p0.shift_amount() == 0,
        ensures
            pk.map_at(d, j) == p0.map_at(d, (j + pk.shift_amount()) % (pk.fast_len() as int)),
    {
        let nf = pk.fast_len() as int;
        let jp = (j + pk.shift_amount()) % nf;
        lemma_mod_bound(j + pk.shift_amount(), nf);
        lemma_small_mod(jp as nat, nf as nat);
        assert(pk.chrono_col(jp) =~= p0.chrono_col(jp));
    }
}

} // verus!
