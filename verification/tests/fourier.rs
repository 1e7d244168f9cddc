use improve::fourier::{bin_count, bin_number, mask_fits, padded_len};

#[test]
fn padding_multiplies_the_window() {
    assert_eq!(padded_len(8192, 1), Some(8192));
    assert_eq!(padded_len(8192, 4), Some(32768));
    assert_eq!(padded_len(3, 5), Some(15));
    assert_eq!(padded_len(0, 7), Some(0));
    assert_eq!(padded_len(7, 0), Some(0));
}

#[test]
fn padding_beyond_the_machine_is_refused() {
    assert_eq!(padded_len(usize::MAX, 2), None);
    assert_eq!(padded_len(usize::MAX / 2 + 1, 2), None);
    assert_eq!(padded_len(usize::MAX / 2, 2), Some(usize::MAX - 1));
    assert_eq!(padded_len(usize::MAX, 1), Some(usize::MAX));
}

#[test]
fn the_spectrum_keeps_the_lower_half_without_its_first_bin() {
    assert_eq!(bin_count(16), 7);
    assert_eq!(bin_count(8192), 4095);
    assert_eq!(bin_count(15), 6);
    assert_eq!(bin_count(4), 1);
    assert_eq!(bin_count(3), 0);
    assert_eq!(bin_count(2), 0);
    assert_eq!(bin_count(1), 0);
    assert_eq!(bin_count(0), 0);
}

#[test]
fn components_are_read_from_the_bins_after_the_first() {
    assert_eq!(bin_number(0, 16), Some(1));
    assert_eq!(bin_number(6, 16), Some(7));
    assert_eq!(bin_number(7, 16), None);
    assert_eq!(bin_number(0, 2), None);
    assert_eq!(bin_number(usize::MAX, usize::MAX), None);
}

#[test]
fn bins_stand_for_frequencies_below_half_the_rate() {
    let rate = 88200.0f64;
    let padded = 8192usize;
    for index in 0..bin_count(padded) {
        let bin = bin_number(index, padded).unwrap();
        let frequency = bin as f64 / padded as f64 * rate;
        assert!(frequency > 0.0);
        assert!(frequency < rate / 2.0);
    }
    let first = bin_number(0, padded).unwrap() as f64 / padded as f64 * rate;
    assert!((first - 10.7666015625).abs() < 1e-9);
}

#[test]
fn a_mask_fits_a_spectrum_of_its_length() {
    assert!(mask_fits(7, 16));
    assert!(!mask_fits(8, 16));
    assert!(!mask_fits(6, 16));
    assert!(mask_fits(0, 0));
    assert!(mask_fits(4095, 8192));
}
