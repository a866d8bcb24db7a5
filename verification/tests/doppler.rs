use pulse_doppler::doppler_processing::{fftshift_into, RangeDopplerProcessor};
use rustfft::num_complex::Complex32;

#[test]
fn test_fftshift_even() {
    let a = vec![1, 2, 3, 4, 5, 6];
    let mut b = vec![0; 6];
    fftshift_into(&a, &mut b);
    assert_eq!(b, [4, 5, 6, 1, 2, 3]);
}

#[test]
fn test_fftshift_odd() {
    let a = vec![1, 2, 3, 4, 5, 6, 7];
    let mut b = vec![0; 7];
    fftshift_into(&a, &mut b);
    assert_eq!(b, [5, 6, 7, 1, 2, 3, 4]);
}

fn row(n_fast: usize, seed: f32) -> Vec<Complex32> {
    (0..n_fast).map(|j| Complex32::new(seed + j as f32, seed - j as f32)).collect()
}

#[test]
fn cursor_wraps_after_n_slow_impulses() {
    let mut p = RangeDopplerProcessor::new(3, 4).unwrap();
    assert_eq!(p.n_slow(), 3);
    assert_eq!(p.n_fast(), 4);
    let start = p.cursor();
    for _ in 0..3 {
        p.next_impulse();
    }
    assert_eq!(p.cursor(), start);
}

#[test]
fn cube_keeps_last_n_slow_pulses() {
    let mut p = RangeDopplerProcessor::new(3, 4).unwrap();
    // Feed five pulses into a depth-3 history.
    for k in 0..5 {
        p.set_input_row(&row(4, (k + 1) as f32 * 100.0));
        p.next_impulse();
    }
    // The row at the cursor is the oldest retained pulse: the third one fed.
    assert_eq!(p.cursor(), 2);
    assert_eq!(p.input_buffer(), row(4, 300.0));
}

#[test]
fn fast_time_shift_rotates_range_axis() {
    let n_slow = 4;
    let n_fast = 5;
    let mut base = RangeDopplerProcessor::new(n_slow, n_fast).unwrap();
    let mut shifted = RangeDopplerProcessor::new(n_slow, n_fast).unwrap();
    for k in 0..n_slow + 2 {
        let r = row(n_fast, (k as f32) * 7.0 + 1.0);
        base.set_input_row(&r);
        base.next_impulse();
        shifted.set_input_row(&r);
        shifted.next_impulse();
    }
    let shift = 2;
    shifted.set_fast_time_shift(shift);
    let zero = Complex32::new(0.0, 0.0);
    let mut out_base = vec![zero; n_slow * n_fast];
    let mut out_shifted = vec![zero; n_slow * n_fast];
    base.range_doppler(&mut out_base);
    shifted.range_doppler(&mut out_shifted);
    for d in 0..n_slow {
        for j in 0..n_fast {
            let rotated = (j + shift) % n_fast;
            assert_eq!(out_shifted[d * n_fast + j], out_base[d * n_fast + rotated]);
        }
    }
}

#[test]
fn doppler_of_constant_history_is_centered_spike() {
    // A constant slow-time history has all its energy at zero Doppler, which
    // the FFT shift moves to the center row.
    let n_slow = 4;
    let n_fast = 2;
    let mut p = RangeDopplerProcessor::new(n_slow, n_fast).unwrap();
    for _ in 0..n_slow {
        p.set_input_row(&vec![Complex32::new(1.0, 0.0); n_fast]);
        p.next_impulse();
    }
    let zero = Complex32::new(0.0, 0.0);
    let mut out = vec![zero; n_slow * n_fast];
    p.range_doppler(&mut out);
    for j in 0..n_fast {
        for d in 0..n_slow {
            let expected = if d == n_slow / 2 { n_slow as f32 } else { 0.0 };
            assert!((out[d * n_fast + j] - Complex32::new(expected, 0.0)).norm() < 1e-5);
        }
    }
}
