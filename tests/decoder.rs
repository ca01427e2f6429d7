use demanchester::{decode, demodulate, symbols, Demanchesterer};

/// A Manchester line: each bit a cell of `2 * half` symbols, the bit's own
/// level first and the opposite level after the mid-cell transition.
fn line(bits: &[u8], half: usize) -> Vec<u8> {
    let mut out = Vec::new();
    for &b in bits {
        out.extend(std::iter::repeat(b).take(half));
        out.extend(std::iter::repeat(1 - b).take(half));
    }
    out
}

fn bits_of(decoded: &[(u8, usize)]) -> Vec<u8> {
    decoded.iter().map(|&(b, _)| b).collect()
}

#[test]
fn decodes_five_bits_in_order() {
    // A full level then a change reads as 1; two half-cell levels read as 0.
    let stream = line(&[0, 1, 1, 0, 1, 1], 8);
    let out = decode(stream);
    assert_eq!(bits_of(&out), vec![1, 0, 1, 1, 0]);
    assert_eq!(out, vec![(1, 24), (0, 40), (1, 56), (1, 72), (0, 88)]);
    assert!(out.windows(2).all(|w| w[0].1 < w[1].1));
}

#[test]
fn single_glitch_decodes_like_clean_stream() {
    let clean = line(&[0, 1, 1, 0, 1, 1], 8);
    let expected = decode(clean.clone());
    for g in [10usize, 30, 50, 77] {
        let mut glitched = clean.clone();
        glitched[g] ^= 1;
        assert_eq!(decode(glitched), expected);
    }
}

#[test]
fn glitch_does_not_change_level() {
    // The lone 1 inside the run of 0s is never taken for an edge.
    let mut clean = vec![1u8; 4];
    clean.extend([0u8; 12]);
    clean.extend([1u8; 4]);
    let mut glitched = clean.clone();
    glitched[9] = 1;
    assert_eq!(decode(clean), vec![(1, 16)]);
    assert_eq!(decode(glitched), vec![(1, 16)]);
}

#[test]
fn resynchronizes_after_a_long_run() {
    let mut s = vec![1u8; 3];
    s.extend([0u8; 8]);
    s.extend([1u8; 8]);
    s.extend([0u8; 25]);
    s.extend([1u8; 8]);
    s.extend([0u8; 8]);
    s.extend([1u8; 16]);
    s.extend([0u8; 8]);
    assert_eq!(decode(s), vec![(0, 11), (1, 44), (0, 60), (1, 76)]);
}

#[test]
fn constant_stream_decodes_to_nothing() {
    assert_eq!(decode(vec![1u8; 50]), vec![]);
    assert_eq!(decode(vec![0u8; 50]), vec![]);
}

#[test]
fn empty_stream_decodes_to_nothing() {
    assert_eq!(decode(vec![]), vec![]);
    let mut d = Demanchesterer::new(vec![]);
    assert_eq!(d.next(), None);
    assert_eq!(d.next(), None);
}

#[test]
fn stream_ending_inside_lookahead_stops() {
    assert_eq!(decode(vec![0, 0, 0, 1]), vec![]);
    assert_eq!(decode(vec![0, 0, 0, 1, 1]), vec![]);
}

#[test]
fn next_yields_what_decode_returns() {
    let stream = line(&[1, 0, 0, 1, 0, 0, 1], 7);
    let mut d = Demanchesterer::new(stream.clone());
    let mut got = Vec::new();
    while let Some(b) = d.next() {
        got.push(b);
    }
    assert_eq!(d.next(), None);
    assert_eq!(got, decode(stream));
    assert!(!got.is_empty());
}

#[test]
fn pipeline_recovers_bits_from_raw_samples() {
    let mut raw = vec![0u8; 20];
    for b in [0u8, 1, 1, 0, 1, 1, 0, 1] {
        let (first, second) = if b == 1 { (1u8, 0u8) } else { (0u8, 1u8) };
        raw.extend(std::iter::repeat(first).take(12));
        raw.extend(std::iter::repeat(second).take(12));
    }
    let expected = vec![(1, 24), (1, 47), (1, 60), (1, 96), (1, 119), (1, 132), (1, 168), (1, 191)];
    assert_eq!(demodulate(&raw), expected);
    assert_eq!(decode(symbols(&raw)), expected);
    assert_eq!(demodulate(&raw), demodulate(&raw));
}

#[test]
fn pipeline_on_empty_input() {
    assert_eq!(demodulate(&[]), vec![]);
    assert_eq!(demodulate(&[1u8; 10]), vec![]);
}
