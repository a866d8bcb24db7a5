use pulse_doppler::matchedfilter::MatchedFilter;
use pulse_doppler::{ClutterFilterOption, Sonar, SonarError};
use rustfft::num_complex::Complex32;

fn reals(values: impl Iterator<Item = f32>) -> Vec<Complex32> {
    values.map(|v| Complex32::new(v, 0.0)).collect()
}

/// A short chirp-like reference pulse with a sharp autocorrelation.
fn reference_pulse(n: usize) -> Vec<Complex32> {
    reals((0..n).map(|i| {
        let t = i as f32;
        (0.05 * t * t).sin()
    }))
}

#[test]
fn matched_filter_autocorrelation_peaks_at_zero_lag() {
    let impulse = reference_pulse(64);
    let mut mf = MatchedFilter::new(&impulse, 0, 1).unwrap();
    assert_eq!(mf.input_length(), 64);
    let mut out = vec![Complex32::new(0.0, 0.0); 64];
    mf.handle_impulse(&impulse, &mut out).unwrap();
    let mut peak = 0;
    for j in 1..64 {
        if out[j].norm() > out[peak].norm() {
            peak = j;
        }
    }
    assert_eq!(peak, 0);
    assert!(out[0].norm() > 0.0);
}

#[test]
fn matched_filter_rejects_wrong_length_frame() {
    let impulse = reference_pulse(16);
    let mut mf = MatchedFilter::new(&impulse, 0, 1).unwrap();
    let mut out = vec![Complex32::new(0.0, 0.0); 16];
    let short = reference_pulse(15);
    assert_eq!(mf.handle_impulse(&short, &mut out), Err(SonarError::InputLengthMismatch));
    let exact = reference_pulse(16);
    assert_eq!(mf.handle_impulse(&exact, &mut out), Ok(()));
}

#[test]
fn matched_filter_rejects_bad_configuration() {
    let impulse = reference_pulse(16);
    assert!(matches!(
        MatchedFilter::new(&Vec::new(), 0, 1),
        Err(SonarError::ConfigurationError)
    ));
    assert!(matches!(
        MatchedFilter::new(&impulse, 0, 0),
        Err(SonarError::ConfigurationError)
    ));
}

#[test]
fn carrier_derotation_changes_phase_per_bin() {
    let impulse = reference_pulse(32);
    let mut plain = MatchedFilter::new(&impulse, 0, 1).unwrap();
    // Normalized carrier frequency 1/4: the de-rotation phasor at full-rate
    // index n is (-i)^n.
    let mut rotated = MatchedFilter::new(&impulse, 250000, 1).unwrap();
    let zero = Complex32::new(0.0, 0.0);
    let mut out_plain = vec![zero; 32];
    let mut out_rotated = vec![zero; 32];
    plain.handle_impulse(&impulse, &mut out_plain).unwrap();
    rotated.handle_impulse(&impulse, &mut out_rotated).unwrap();
    let minus_i = Complex32::new(0.0, -1.0);
    let mut phasor = Complex32::new(1.0, 0.0);
    for j in 0..32 {
        let expected = out_plain[j] * phasor;
        assert!((out_rotated[j] - expected).norm() <= 1e-3 * (1.0 + expected.norm()));
        phasor *= minus_i;
    }
    // The rotation is not the identity somewhere with signal.
    assert!((out_rotated[1] - out_plain[1]).norm() > 1e-6);
}

#[test]
fn decimation_keeps_every_dth_bin() {
    let impulse = reference_pulse(32);
    let mut full = MatchedFilter::new(&impulse, 0, 1).unwrap();
    let mut decimated = MatchedFilter::new(&impulse, 0, 4).unwrap();
    let zero = Complex32::new(0.0, 0.0);
    let mut out_full = vec![zero; 32];
    let mut out_dec = vec![zero; 8];
    full.handle_impulse(&impulse, &mut out_full).unwrap();
    decimated.handle_impulse(&impulse, &mut out_dec).unwrap();
    for j in 0..8 {
        assert_eq!(out_dec[j], out_full[4 * j]);
    }
}

#[test]
fn sonar_rejects_bad_configuration() {
    let impulse = reference_pulse(16);
    let bad = [
        Sonar::new(&Vec::new(), 0, 1, 4, 500000, ClutterFilterOption::NoFilter, false),
        Sonar::new(&impulse, 0, 0, 4, 500000, ClutterFilterOption::NoFilter, false),
        Sonar::new(&impulse, 0, 1, 0, 500000, ClutterFilterOption::NoFilter, false),
        Sonar::new(&impulse, 0, 1, 4, 0, ClutterFilterOption::NoFilter, false),
        Sonar::new(&impulse, 0, 1, 4, 1000000, ClutterFilterOption::NoFilter, false),
    ];
    for r in bad {
        assert!(matches!(r, Err(SonarError::ConfigurationError)));
    }
}

#[test]
fn sonar_completes_pulses_as_frames_fill() {
    let impulse = reference_pulse(8);
    let mut sonar =
        Sonar::new(&impulse, 0, 2, 3, 500000, ClutterFilterOption::TwoPulse, true).unwrap();
    let chunk = reals((0..3).map(|i| (i as f32) * 0.25));
    // 8 samples per frame, 3 per chunk: a pulse completes on every chunk
    // that brings the buffered total to 8 or more.
    let mut completions = Vec::new();
    for _ in 0..6 {
        completions.push(sonar.handle_input(&chunk));
    }
    assert_eq!(completions, [false, false, true, false, false, true]);
    let map = sonar.get_data_cube();
    // 3 Doppler rows of ceil(8/2) = 4 range bins each.
    assert_eq!(map.len(), 12);
    // Magnitudes are real and non-negative.
    for x in map {
        assert_eq!(x.im, 0.0);
        assert!(x.re >= 0.0);
    }
}

#[test]
fn zero_doppler_suppression_clears_center_row() {
    let impulse = reference_pulse(8);
    let mut sonar =
        Sonar::new(&impulse, 0, 1, 4, 500000, ClutterFilterOption::RemoveZero, false).unwrap();
    // Feed identical frames so that the zero-Doppler row carries all energy.
    for _ in 0..4 {
        assert!(sonar.handle_input(&impulse));
    }
    let map = sonar.get_data_cube();
    assert_eq!(map.len(), 4 * 8);
    let center = 4 / 2;
    for j in 0..8 {
        assert_eq!(map[center * 8 + j], Complex32::new(0.0, 0.0));
    }
    // Some other row still holds the suppressed energy's neighbours or zero;
    // the map itself is not all zero outside the cleared row.
    let residual: f32 = (0..4)
        .filter(|d| *d != center)
        .map(|d| (0..8).map(|j| map[d * 8 + j].re).sum::<f32>())
        .sum();
    assert!(residual >= 0.0);
}
