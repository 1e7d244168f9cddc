use improve::dissonance::{harmonic_partial, harmonic_series, Partial, FC, HARMONIC_COUNT};

#[test]
fn the_instrument_has_three_hundred_harmonics_a_side() {
    assert_eq!(HARMONIC_COUNT, 300);
    assert_eq!(FC, 601);
    assert_eq!(harmonic_series(HARMONIC_COUNT).len(), FC);
}

#[test]
fn the_fundamental_stands_in_the_middle() {
    assert_eq!(harmonic_partial(300, 300), Some(Partial::Fundamental));
    assert_eq!(harmonic_partial(3, 3), Some(Partial::Fundamental));
    assert_eq!(harmonic_partial(0, 0), Some(Partial::Fundamental));
}

#[test]
fn undertones_stand_below_and_overtones_above() {
    assert_eq!(harmonic_partial(300, 0), Some(Partial::Undertone(301)));
    assert_eq!(harmonic_partial(300, 1), Some(Partial::Undertone(300)));
    assert_eq!(harmonic_partial(300, 299), Some(Partial::Undertone(2)));
    assert_eq!(harmonic_partial(300, 301), Some(Partial::Overtone(2)));
    assert_eq!(harmonic_partial(300, 302), Some(Partial::Overtone(3)));
    assert_eq!(harmonic_partial(300, 600), Some(Partial::Overtone(301)));
}

#[test]
fn there_is_no_component_beyond_the_last_overtone() {
    assert_eq!(harmonic_partial(300, 601), None);
    assert_eq!(harmonic_partial(300, usize::MAX), None);
    assert_eq!(harmonic_partial(0, 1), None);
}

#[test]
fn a_small_series_in_full() {
    assert_eq!(
        harmonic_series(2),
        vec![
            Partial::Undertone(3),
            Partial::Undertone(2),
            Partial::Fundamental,
            Partial::Overtone(2),
            Partial::Overtone(3),
        ]
    );
    assert_eq!(harmonic_series(0), vec![Partial::Fundamental]);
}

#[test]
fn the_series_agrees_with_the_single_slots() {
    let series = harmonic_series(30);
    assert_eq!(series.len(), 61);
    for (slot, partial) in series.iter().enumerate() {
        assert_eq!(harmonic_partial(30, slot), Some(*partial));
    }
}

#[test]
fn every_factor_occurs_once_on_each_side() {
    let series = harmonic_series(HARMONIC_COUNT);
    for k in 2..=HARMONIC_COUNT + 1 {
        assert_eq!(series.iter().filter(|p| **p == Partial::Undertone(k)).count(), 1);
        assert_eq!(series.iter().filter(|p| **p == Partial::Overtone(k)).count(), 1);
    }
    assert_eq!(series.iter().filter(|p| **p == Partial::Fundamental).count(), 1);
}

#[test]
fn the_series_ascends_in_frequency() {
    let pitch = 440.0f64;
    let frequency = |partial: &Partial| match *partial {
        Partial::Undertone(k) => pitch / k as f64,
        Partial::Fundamental => pitch,
        Partial::Overtone(k) => pitch * k as f64,
    };
    let series = harmonic_series(HARMONIC_COUNT);
    for pair in series.windows(2) {
        assert!(frequency(&pair[0]) < frequency(&pair[1]));
    }
    assert!((frequency(&series[0]) - 440.0 / 301.0).abs() < 1e-9);
    assert!((frequency(&series[600]) - 440.0 * 301.0).abs() < 1e-9);
}
