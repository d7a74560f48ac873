use sstv::freq::{calc_lum, is_tone, peak_fft_freq, Frequency};

fn mhz(millihertz: u64) -> Frequency {
    Frequency { millihertz }
}

#[test]
fn luminance_at_the_ends() {
    assert_eq!(calc_lum(Frequency::from_hertz(1500)), 0);
    assert_eq!(calc_lum(Frequency::from_hertz(2300)), 255);
}

#[test]
fn luminance_is_clamped() {
    assert_eq!(calc_lum(mhz(0)), 0);
    assert_eq!(calc_lum(Frequency::from_hertz(1200)), 0);
    assert_eq!(calc_lum(mhz(1_499_999)), 0);
    assert_eq!(calc_lum(mhz(2_300_001)), 255);
    assert_eq!(calc_lum(Frequency::from_hertz(5000)), 255);
    assert_eq!(calc_lum(mhz(u64::MAX)), 255);
}

#[test]
fn luminance_is_linear_between() {
    assert_eq!(calc_lum(Frequency::from_hertz(1900)), 127);
    assert_eq!(calc_lum(Frequency::from_hertz(1700)), 63);
    assert_eq!(calc_lum(Frequency::from_hertz(2100)), 191);
    assert_eq!(calc_lum(mhz(1_503_137)), 0);
    assert_eq!(calc_lum(mhz(1_503_138)), 1);
    assert_eq!(calc_lum(mhz(2_299_999)), 254);
}

#[test]
fn luminance_never_falls_as_the_tone_rises() {
    let mut last = 0;
    for step in 0..4000u64 {
        let lum = calc_lum(mhz(1_000_000 + step * 500));
        assert!(lum >= last);
        last = lum;
    }
    assert_eq!(last, 255);
}

#[test]
fn from_hertz_counts_millihertz() {
    assert_eq!(Frequency::from_hertz(1900), mhz(1_900_000));
    assert_eq!(Frequency::from_hertz(u32::MAX).millihertz, 4_294_967_295_000);
}

#[test]
fn a_tone_matches_within_fifty_hertz() {
    assert!(is_tone(Frequency::from_hertz(1900), 1_900_000));
    assert!(is_tone(mhz(1_850_001), 1_900_000));
    assert!(is_tone(mhz(1_949_999), 1_900_000));
    assert!(!is_tone(mhz(1_850_000), 1_900_000));
    assert!(!is_tone(mhz(1_950_000), 1_900_000));
    assert!(!is_tone(Frequency::from_hertz(1200), 1_900_000));
    assert!(is_tone(mhz(0), 10_000));
}

#[test]
fn peak_between_two_bins() {
    // bin 2 of 4 leads; 8000 Hz over 6 samples: (2 + 10 / 40) bins of 1333.3 Hz
    assert_eq!(peak_fft_freq(&[0, 10, 30, 20], 8000, 6), mhz(3_000_000));
}

#[test]
fn peak_leaning_down() {
    // (2 + (10 - 20) / (10 - 20 + 30)) bins = 1.5 bins of 1000 Hz
    assert_eq!(peak_fft_freq(&[0, 20, 30, 10, 0], 8000, 8), mhz(1_500_000));
}

#[test]
fn peak_is_rounded_down() {
    // (1 + 1 / 8) bins of 1000 / 3 Hz
    assert_eq!(peak_fft_freq(&[1, 7, 2], 1000, 3), mhz(375_000));
    // (1 + 1 / 4) bins of 7 / 3 Hz = 2.9166.. Hz
    assert_eq!(peak_fft_freq(&[0, 3, 1], 7, 3), mhz(2_916));
}

#[test]
fn peak_at_the_last_bin_takes_itself_as_neighbour() {
    // (3 + (9 - 5) / (9 - 5 + 9)) bins of 1000 Hz
    assert_eq!(peak_fft_freq(&[0, 0, 5, 9], 6000, 6), mhz(3_307_692));
}

#[test]
fn first_of_equal_bins_counts() {
    // bins 1 and 2 are equal: bin 1 it is, (1 + 5 / 10) bins of 1000 Hz
    assert_eq!(peak_fft_freq(&[0, 5, 5, 0], 6000, 6), mhz(1_500_000));
}

#[test]
fn silence_peaks_at_zero() {
    assert_eq!(peak_fft_freq(&[0, 0, 0, 0], 44100, 6), mhz(0));
    assert_eq!(peak_fft_freq(&[0], 44100, 0), mhz(0));
    assert_eq!(peak_fft_freq(&[0], 44100, 1), mhz(0));
}

#[test]
fn a_peak_at_the_first_bin_is_zero() {
    assert_eq!(peak_fft_freq(&[9, 3, 1], 44100, 4), mhz(0));
    assert_eq!(peak_fft_freq(&[9, 9, 9], 44100, 4), mhz(0));
    assert_eq!(peak_fft_freq(&[9, 0, 0], 44100, 4), mhz(0));
}

#[test]
fn a_refinement_below_zero_is_zero() {
    // (1 + (0 - 99) / (0 - 99 + 100)) bins is far below zero
    assert_eq!(peak_fft_freq(&[99, 100, 0], 44100, 4), mhz(0));
}
