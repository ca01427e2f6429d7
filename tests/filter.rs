use demanchester::{filter, kernel_coefficient, FirFilter, KERNEL_SUM, SCALE, TAPS};

#[test]
fn filter_output_length_matches_input() {
    for n in [0usize, 1, 15, 16, 17, 100] {
        let samples: Vec<u8> = (0..n).map(|i| (i % 3 == 0) as u8).collect();
        assert_eq!(filter(&samples).len(), n);
    }
}

#[test]
fn filter_empty_input_gives_empty_output() {
    assert!(filter(&[]).is_empty());
}

#[test]
fn filter_cold_start_values() {
    assert_eq!(
        filter(&[1, 1, 1]),
        vec![424914089475655000, 1054821607002768100, 2046113319261435700]
    );
    assert_eq!(
        filter(&[1, 0, 0]),
        vec![424914089475655000, 629907517527113100, 991291712258667600]
    );
}

#[test]
fn filter_dc_response_settles_on_kernel_sum() {
    let out = filter(&[1u8; 40]);
    assert_eq!(out[14], 18698533906603482593);
    for k in 15..40 {
        assert_eq!(out[k], KERNEL_SUM);
    }
    assert_eq!(KERNEL_SUM, 18708037884179392586);
    let gain = KERNEL_SUM as f64 / SCALE as f64;
    assert!((gain - 1.8708037884179392).abs() < 1e-12);
}

#[test]
fn filter_zero_input_gives_zero() {
    assert!(filter(&[0u8; 30]).iter().all(|&v| v == 0));
}

#[test]
fn filter_reads_only_the_low_bit() {
    let a: Vec<u8> = vec![1, 0, 3, 2, 255, 254, 1, 1, 0, 0, 7, 8, 9, 10, 11, 12, 13, 14, 15, 16];
    let b: Vec<u8> = a.iter().map(|&x| x & 1).collect();
    assert_eq!(filter(&a), filter(&b));
}

#[test]
fn filter_is_deterministic() {
    let samples: Vec<u8> = (0..200u32).map(|i| ((i * 7 + i / 5) % 2) as u8).collect();
    assert_eq!(filter(&samples), filter(&samples));
}

#[test]
fn streaming_filter_matches_batch() {
    let samples: Vec<u8> = (0..64u32).map(|i| ((i / 4) % 2) as u8).collect();
    let mut f = FirFilter::new();
    let streamed: Vec<u128> = samples.iter().map(|&s| f.push(s)).collect();
    assert_eq!(streamed, filter(&samples));
}

#[test]
fn kernel_is_symmetric_and_sums_to_gain() {
    let mut sum: u128 = 0;
    for i in 0..TAPS {
        assert_eq!(kernel_coefficient(i), kernel_coefficient(TAPS - 1 - i));
        sum += kernel_coefficient(i);
    }
    assert_eq!(sum, KERNEL_SUM);
    assert_eq!(kernel_coefficient(0), 9503977575909993);
    assert_eq!(kernel_coefficient(7), 2168344910820333100);
}
