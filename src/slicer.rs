//! The threshold slicer and the sample-to-symbol stage of the pipeline.
use vstd::prelude::*;
use crate::fir::{filter, fir_outputs};

verus! {

/// Decision level, in the filter's fixed point (0.95 times `SCALE`).
pub const THRESHOLD: u128 = 9_500_000_000_000_000_000;

/// Filter outputs dropped at the start of the stream: until 16 samples have
/// been taken the history still holds the zeros it started with.
pub const WARM_UP: usize = 15;

/// The symbol for a filtered value: 1 at or above the threshold, else 0.
pub open spec fn symbol_of(v: int) -> u8 {
    if v >= THRESHOLD {
        1
    } else {
        0
    }
}

/// The symbols for the samples `x`: each filter output after the warm-up,
/// sliced.
pub open spec fn symbol_stream(x: Seq<u8>) -> Seq<u8> {
    if x.len() <= WARM_UP {
        Seq::empty()
    } else {
        Seq::new((x.len() - WARM_UP) as nat, |k: int| symbol_of(fir_outputs(x)[k + WARM_UP]))
    }
}

/// The slicer is a pure function of the filtered value: equal values always
/// give the same symbol, and a larger value never gives a smaller symbol.
pub proof fn lemma_slicer_pure(a: int, b: int)
    ensures
        a == b ==> symbol_of(a) == symbol_of(b),
        a <= b ==> symbol_of(a) <= symbol_of(b),
        symbol_of(a) == 0 || symbol_of(a) == 1,
{
}

/// Quantizes one filtered value to a symbol.
pub fn slice(v: u128) -> (s: u8)
    ensures
        s == symbol_of(v as int),
{
    if v >= THRESHOLD {
        1
    } else {
        0
    }
}

/// Filters the samples, drops the warm-up outputs and slices the rest.
pub fn symbols(samples: &[u8]) -> (out: Vec<u8>)
    ensures
        out@ == symbol_stream(samples@),
{
    let filtered = filter(samples);
    let mut out: Vec<u8> = Vec::new();
    let mut k: usize = WARM_UP;
    while k < filtered.len()
        invariant
            filtered@.len() == samples@.len(),
            forall|m: int| 0 <= m < filtered@.len() ==> filtered@[m] as int == #[trigger] fir_outputs(samples@)[m],
            WARM_UP <= k,
            k <= filtered@.len() || filtered@.len() <= WARM_UP,
            out@.len() == if k <= filtered@.len() { k - WARM_UP } else { 0 },
            forall|m: int| 0 <= m < out@.len() ==> out@[m] == #[trigger] symbol_stream(samples@)[m],
        decreases filtered@.len() - k,
    {
        let s = slice(filtered[k]);
        out.push(s);
        k = k + 1;
    }
    assert(out@ =~= symbol_stream(samples@));
    out
}

} // verus!
