use pulse_doppler::clutterfilter::{
    ClutterFilter, ClutterMap, DummyFilter, LeakyIntegratorFilter, TwoPulseCanceller,
};
use pulse_doppler::SonarError;
use rustfft::num_complex::Complex32;

#[test]
fn clutter_map_converges_geometrically() {
    // With alpha = 1/2 the distance to a constant input halves every step,
    // exactly in floating point for these values.
    let constant = vec![
        Complex32::new(4.0, 0.0),
        Complex32::new(-2.0, 2.0),
        Complex32::new(1.0, 0.0),
    ];
    let mut map = ClutterMap::new(3, 500000).unwrap();
    let mut prev_err: Vec<Complex32> = constant.clone();
    for _ in 0..10 {
        map.process(&constant);
        let est = map.estimates();
        for i in 0..3 {
            let err = constant[i] - est[i];
            assert_eq!(err, prev_err[i] * Complex32::new(0.5, 0.0));
            prev_err[i] = err;
        }
    }
    // After ten halvings the estimate is close to the constant input.
    let est = map.estimates();
    for i in 0..3 {
        assert!((constant[i] - est[i]).norm() <= constant[i].norm() / 1000.0);
    }
    // The strongest bin is the one with the largest |C|.
    assert_eq!(map.argmax(), 0);
}

#[test]
fn clutter_map_rejects_alpha_outside_unit_interval() {
    assert!(matches!(ClutterMap::new(3, 0), Err(SonarError::ConfigurationError)));
    assert!(matches!(ClutterMap::new(3, 1000000), Err(SonarError::ConfigurationError)));
    assert!(ClutterMap::new(3, 999999).is_ok());
}

#[test]
fn argmax_breaks_ties_toward_first_occurrence() {
    let mut map = ClutterMap::new(4, 500000).unwrap();
    let pulse = vec![
        Complex32::new(1.0, 0.0),
        Complex32::new(3.0, 0.0),
        Complex32::new(0.0, 3.0),
        Complex32::new(1.0, 0.0),
    ];
    map.process(&pulse);
    // Bins 1 and 2 have equal magnitude; the first wins.
    assert_eq!(map.argmax(), 1);
}

#[test]
fn two_pulse_canceller_zeroes_repeated_pulse() {
    let pulse = vec![
        Complex32::new(1.5, -2.0),
        Complex32::new(0.25, 8.0),
        Complex32::new(-3.0, 0.125),
    ];
    let mut canceller = TwoPulseCanceller::new(3);
    let mut first = pulse.clone();
    canceller.process_inplace(&mut first);
    // The retained pulse starts at zero, so the first pass is unchanged.
    assert_eq!(first, pulse);
    let mut second = pulse.clone();
    canceller.process_inplace(&mut second);
    for x in second {
        assert_eq!(x, Complex32::new(0.0, 0.0));
    }
}

#[test]
fn leaky_integrator_updates_and_subtracts() {
    let pulse = vec![Complex32::new(4.0, -8.0), Complex32::new(2.0, 2.0)];
    let mut filter = LeakyIntegratorFilter::new(2, 500000).unwrap();
    let mut buf = pulse.clone();
    filter.process_inplace(&mut buf);
    // estimate = alpha * pulse, output = pulse - estimate, with alpha = 1/2.
    for i in 0..2 {
        assert_eq!(buf[i], pulse[i] * Complex32::new(0.5, 0.0));
    }
    assert!(matches!(
        LeakyIntegratorFilter::new(2, 1000000),
        Err(SonarError::ConfigurationError)
    ));
}

#[test]
fn dummy_filter_is_passthrough() {
    let pulse = vec![Complex32::new(4.0, -8.0), Complex32::new(2.0, 2.0)];
    let mut buf = pulse.clone();
    let mut filter = ClutterFilter::Dummy(DummyFilter {});
    filter.process_inplace(&mut buf);
    assert_eq!(buf, pulse);
}
