//! The whole chain: raw samples to decoded bits.
use vstd::prelude::*;
use crate::decoder::{bits_view, decode, decoded};
use crate::fir::{fir_outputs, lemma_filter_depends_on_bits};
use crate::slicer::{symbol_stream, symbols};

verus! {

/// The bits, with the index in the symbol stream of the symbol that confirmed
/// each, that the pipeline recovers from the raw samples `x`.
pub open spec fn demodulated(x: Seq<u8>) -> Seq<(u8, nat)> {
    decoded(symbol_stream(x))
}

/// Runs filter, slicer and decoder over raw samples (one bit per byte, in the
/// least significant bit).
pub fn demodulate(samples: &[u8]) -> (out: Vec<(u8, usize)>)
    ensures
        bits_view(out@) == demodulated(samples@),
{
    decode(symbols(samples))
}


/// Determinism: the pipeline's results are a function of the sample bits
/// alone, so two runs over the same samples, or over samples that agree in
/// every least significant bit, give identical filtered values, symbols and
/// decoded bits.
pub proof fn lemma_pipeline_deterministic(a: Seq<u8>, b: Seq<u8>)
    requires
        a.len() == b.len(),
        forall|j: int| 0 <= j < a.len() ==> #[trigger] (a[j] % 2) == b[j] % 2,
    ensures
        fir_outputs(a) == fir_outputs(b),
        symbol_stream(a) == symbol_stream(b),
        demodulated(a) == demodulated(b),
{
    lemma_filter_depends_on_bits(a, b);
    assert(symbol_stream(a) =~= symbol_stream(b));
}

/// An empty sample stream gives no filtered values, no symbols and no bits;
/// an empty symbol stream decodes to no bits.
pub proof fn lemma_empty_input()
    ensures
        fir_outputs(Seq::<u8>::empty()) == Seq::<int>::empty(),
        symbol_stream(Seq::<u8>::empty()) == Seq::<u8>::empty(),
        decoded(Seq::<u8>::empty()) == Seq::<(u8, nat)>::empty(),
        demodulated(Seq::<u8>::empty()) == Seq::<(u8, nat)>::empty(),
{
    assert(fir_outputs(Seq::<u8>::empty()) =~= Seq::<int>::empty());
}

} // verus!
