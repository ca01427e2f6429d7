use demanchester::{filter, slice, symbols, THRESHOLD, WARM_UP};

#[test]
fn slice_at_and_around_threshold() {
    assert_eq!(slice(THRESHOLD), 1);
    assert_eq!(slice(THRESHOLD - 1), 0);
    assert_eq!(slice(THRESHOLD + 1), 1);
    assert_eq!(slice(0), 0);
    assert_eq!(slice(u128::MAX), 1);
    assert_eq!(THRESHOLD, 9_500_000_000_000_000_000);
}

#[test]
fn slice_is_pure() {
    for v in [0u128, 5, THRESHOLD - 1, THRESHOLD, 18708037884179392586] {
        assert_eq!(slice(v), slice(v));
    }
}

#[test]
fn symbols_drop_the_warm_up() {
    assert_eq!(WARM_UP, 15);
    assert!(symbols(&[]).is_empty());
    assert!(symbols(&[1u8; 15]).is_empty());
    assert_eq!(symbols(&[1u8; 20]), vec![1, 1, 1, 1, 1]);
    let alternating: Vec<u8> = (0..20).map(|i| (i % 2) as u8).collect();
    assert_eq!(symbols(&alternating), vec![0, 0, 0, 0, 0]);
}

#[test]
fn symbols_slice_each_settled_output() {
    let samples: Vec<u8> = (0..80u32).map(|i| ((i / 9) % 2) as u8).collect();
    let f = filter(&samples);
    let s = symbols(&samples);
    assert_eq!(s.len(), samples.len() - WARM_UP);
    for k in 0..s.len() {
        assert_eq!(s[k], slice(f[k + WARM_UP]));
    }
}
