//! The 16-tap symmetric low-pass FIR filter.
//!
//! Coefficients are held exactly in fixed point: a value `v` stands for
//! `v / SCALE`, with `SCALE` equal to 10^19, so each coefficient of the kernel
//! is an integer and the filter's arithmetic is exact.
use vstd::prelude::*;

verus! {

/// Fixed-point scale: a filtered value `v` stands for `v / SCALE`.
pub const SCALE: u128 = 10_000_000_000_000_000_000;

/// Number of taps (and of history slots) of the filter.
pub const TAPS: usize = 16;

/// Outermost coefficient pair (taps 0 and 15), scaled by `SCALE`.
pub const KERNEL_0: u128 = 9_503_977_575_909_993;
/// Taps 1 and 14.
pub const KERNEL_1: u128 = 424_914_089_475_655_000;
/// Taps 2 and 13.
pub const KERNEL_2: u128 = 629_907_517_527_113_100;
/// Taps 3 and 12.
pub const KERNEL_3: u128 = 991_291_712_258_667_600;
/// Taps 4 and 11.
pub const KERNEL_4: u128 = 1_377_186_027_260_431_000;
/// Taps 5 and 10.
pub const KERNEL_5: u128 = 1_737_062_280_964_101_000;
/// Taps 6 and 9.
pub const KERNEL_6: u128 = 2_015_808_426_207_485_500;
/// Central pair (taps 7 and 8).
pub const KERNEL_7: u128 = 2_168_344_910_820_333_100;

/// Sum of all sixteen coefficients: the filter's gain on a constant input of ones.
pub const KERNEL_SUM: u128 = 18_708_037_884_179_392_586;

/// Coefficient of tap `i` (`0 <= i < 16`), scaled by `SCALE`; the kernel is
/// symmetric, tap `i` and tap `15 - i` carry the same weight.
pub open spec fn coefficient(i: int) -> int {
    let j = if i < 8 { i } else { 15 - i };
    if j == 0 {
        KERNEL_0 as int
    } else if j == 1 {
        KERNEL_1 as int
    } else if j == 2 {
        KERNEL_2 as int
    } else if j == 3 {
        KERNEL_3 as int
    } else if j == 4 {
        KERNEL_4 as int
    } else if j == 5 {
        KERNEL_5 as int
    } else if j == 6 {
        KERNEL_6 as int
    } else {
        KERNEL_7 as int
    }
}

/// Sum of the coefficients of taps `0 .. k`.
pub open spec fn coefficient_sum(k: int) -> int
    decreases k,
{
    if k <= 0 {
        0
    } else {
        coefficient_sum(k - 1) + coefficient(k - 1)
    }
}

/// The sample bit carried by byte `k` of `x` (its least significant bit), and
/// 0 for an index before the start or past the end: the filter's history is
/// zero before the stream begins.
pub open spec fn bit_at(x: Seq<u8>, k: int) -> int {
    if 0 <= k < x.len() {
        (x[k] % 2) as int
    } else {
        0
    }
}

/// How far back tap `i` reads once `n` samples have been taken: history slot
/// `(n - i) mod 16`. For `i >= 1` that slot holds the sample `i` places back;
/// for `i == 0` it is the slot written next, which still holds the sample 16
/// places back.
pub open spec fn lag(i: int) -> int {
    if i == 0 {
        16
    } else {
        i
    }
}

/// The bit seen by tap `i` after the samples `x` have been taken.
pub open spec fn tap(x: Seq<u8>, i: int) -> int {
    bit_at(x, x.len() - lag(i))
}

/// Weighted sum of taps `0 .. k` after the samples `x`.
pub open spec fn partial_response(x: Seq<u8>, k: int) -> int
    decreases k,
{
    if k <= 0 {
        0
    } else {
        partial_response(x, k - 1) + coefficient(k - 1) * tap(x, k - 1)
    }
}

/// The filter's output once the samples `x` have been taken (scaled by `SCALE`).
pub open spec fn fir_output(x: Seq<u8>) -> int {
    partial_response(x, 16)
}

/// Outputs of a fresh filter fed `x`: one per sample, the `k`-th after the
/// first `k + 1` samples.
pub open spec fn fir_outputs(x: Seq<u8>) -> Seq<int> {
    Seq::new(x.len(), |k: int| fir_output(x.subrange(0, k + 1)))
}

/// Coefficient of tap `i`, as stored.
pub fn kernel_coefficient(i: usize) -> (c: u128)
    requires
        i < TAPS,
    ensures
        c == coefficient(i as int),
        c <= KERNEL_7,
{
    let j = if i < 8 { i } else { 15 - i };
    if j == 0 {
        KERNEL_0
    } else if j == 1 {
        KERNEL_1
    } else if j == 2 {
        KERNEL_2
    } else if j == 3 {
        KERNEL_3
    } else if j == 4 {
        KERNEL_4
    } else if j == 5 {
        KERNEL_5
    } else if j == 6 {
        KERNEL_6
    } else {
        KERNEL_7
    }
}


/// The sixteen coefficients sum to `KERNEL_SUM` (about 1.8708 once scaled
/// back), so that is the gain of the filter on a constant input.
pub proof fn lemma_kernel_sum()
    ensures
        coefficient_sum(16) == KERNEL_SUM,
{
    reveal_with_fuel(coefficient_sum, 17);
}

/// Taps `0 .. k` all seeing a one give the sum of their coefficients.
proof fn lemma_partial_all_ones(x: Seq<u8>, k: int)
    requires
        0 <= k <= 16,
        forall|i: int| 0 <= i < k ==> #[trigger] tap(x, i) == 1,
    ensures
        partial_response(x, k) == coefficient_sum(k),
    decreases k,
{
    if k > 0 {
        lemma_partial_all_ones(x, k - 1);
    }
}

/// DC response: once the last 16 samples all carry a one, the filter outputs
/// exactly the sum of its coefficients, `KERNEL_SUM`.
pub proof fn lemma_dc_response(x: Seq<u8>)
    requires
        x.len() >= 16,
        forall|k: int| x.len() - 16 <= k < x.len() ==> #[trigger] x[k] % 2 == 1,
    ensures
        fir_output(x) == KERNEL_SUM,
{
    assert forall|i: int| 0 <= i < 16 implies #[trigger] tap(x, i) == 1 by {
        assert(x[x.len() - lag(i)] % 2 == 1);
    }
    lemma_partial_all_ones(x, 16);
    lemma_kernel_sum();
}

/// On a stream of ones, every output from the sixteenth sample on is
/// `KERNEL_SUM`: the first 15 outputs are the cold-start transient.
pub proof fn lemma_constant_ones_settle(x: Seq<u8>)
    requires
        forall|k: int| 0 <= k < x.len() ==> #[trigger] x[k] % 2 == 1,
    ensures
        forall|k: int| 15 <= k < x.len() ==> #[trigger] fir_outputs(x)[k] == KERNEL_SUM,
{
    assert forall|k: int| 15 <= k < x.len() implies #[trigger] fir_outputs(x)[k] == KERNEL_SUM by {
        let y = x.subrange(0, k + 1);
        assert forall|j: int| y.len() - 16 <= j < y.len() implies #[trigger] y[j] % 2 == 1 by {
            assert(y[j] == x[j]);
        }
        lemma_dc_response(y);
    }
}

/// Two sample streams that agree in every least significant bit give the
/// same taps, hence the same sum over taps `0 .. k`.
proof fn lemma_partial_same_bits(a: Seq<u8>, b: Seq<u8>, k: int)
    requires
        a.len() == b.len(),
        forall|j: int| 0 <= j < a.len() ==> #[trigger] (a[j] % 2) == b[j] % 2,
    ensures
        partial_response(a, k) == partial_response(b, k),
    decreases k,
{
    if k > 0 {
        lemma_partial_same_bits(a, b, k - 1);
        let j = a.len() - lag(k - 1);
        if 0 <= j < a.len() {
            assert(a[j] % 2 == b[j] % 2);
        }
    }
}

/// The filter's outputs are a function of the sample bits alone: streams
/// that agree in every least significant bit (in particular, the same stream
/// filtered twice) give identical outputs.
pub proof fn lemma_filter_depends_on_bits(a: Seq<u8>, b: Seq<u8>)
    requires
        a.len() == b.len(),
        forall|j: int| 0 <= j < a.len() ==> #[trigger] (a[j] % 2) == b[j] % 2,
    ensures
        fir_outputs(a) == fir_outputs(b),
{
    assert forall|k: int| 0 <= k < a.len() implies #[trigger] fir_outputs(a)[k] == fir_outputs(b)[k] by {
        let ya = a.subrange(0, k + 1);
        let yb = b.subrange(0, k + 1);
        assert forall|j: int| 0 <= j < ya.len() implies #[trigger] (ya[j] % 2) == yb[j] % 2 by {
            assert(ya[j] == a[j]);
            assert(yb[j] == b[j]);
        }
        lemma_partial_same_bits(ya, yb, 16);
    }
    assert(fir_outputs(a) =~= fir_outputs(b));
}

/// A running FIR filter: a circular history of the last 16 sample bits and
/// the slot that the next sample is written to.
pub struct FirFilter {
    history: [u8; 16],
    cursor: usize,
    consumed: Ghost<Seq<u8>>,
}

impl FirFilter {
    /// The samples taken so far, as given (only their low bits are used).
    pub closed spec fn consumed(&self) -> Seq<u8> {
        self.consumed@
    }

    /// The cursor is the count of samples taken, modulo 16, and the slot
    /// `(n - j) mod 16` holds the bit of the sample `j` places back, for every
    /// `j` from 1 to 16 (zero before the stream began).
    pub closed spec fn wf(&self) -> bool {
        let x = self.consumed@;
        let n = x.len() as int;
        &&& self.cursor < 16
        &&& self.cursor as int == n % 16
        &&& forall|j: int|
            1 <= j <= 16 ==> #[trigger] self.history@[(n - j) % 16] as int == bit_at(x, n - j)
    }

    /// A filter that has taken no samples: its history is all zero.
    pub fn new() -> (f: FirFilter)
        ensures
            f.wf(),
            f.consumed() == Seq::<u8>::empty(),
    {
        FirFilter { history: [0u8; 16], cursor: 0, consumed: Ghost(Seq::empty()) }
    }

    /// Takes one sample (its least significant bit) and returns the filtered
    /// value: the sum over the 16 taps of coefficient times the bit in the tap's
    /// history slot.
    pub fn push(&mut self, sample: u8) -> (y: u128)
        requires
            old(self).wf(),
        ensures
            final(self).wf(),
            final(self).consumed() == old(self).consumed().push(sample),
            y as int == fir_output(final(self).consumed()),
    {
        let ghost x0 = self.consumed@;
        let bit: u8 = sample & 1;
        assert(bit == sample % 2) by (bit_vector)
            requires
                bit == sample & 1,
        ;
        self.history[self.cursor] = bit;
        self.cursor = if self.cursor == 15 {
            0
        } else {
            self.cursor + 1
        };
        self.consumed = Ghost(x0.push(sample));
        let ghost x = self.consumed@;
        let ghost n = x.len() as int;
        assert forall|j: int| 1 <= j <= 16 implies #[trigger] self.history@[(n - j) % 16] as int
            == bit_at(x, n - j) by {
            if j > 1 {
                assert(self.history@[(n - j) % 16] == old(self).history@[((n - 1) - (j - 1)) % 16]);
            }
        }
        let mut acc: u128 = 0;
        let mut i: usize = 0;
        while i < TAPS
            invariant
                self.wf(),
                self.consumed() == x,
                n == x.len(),
                i <= TAPS,
                acc as int == partial_response(x, i as int),
                acc <= i * KERNEL_7,
            decreases TAPS - i,
        {
            let slot: usize = (self.cursor + 16 - i) % 16;
            proof {
                let l = lag(i as int);
                let c = self.cursor as int;
                assert(slot as int == (n - l) % 16);
                assert(self.history@[(n - l) % 16] as int == bit_at(x, n - l));
            }
            let c = kernel_coefficient(i);
            let b = self.history[slot];
            let term: u128 = if b == 0 {
                0
            } else {
                c
            };
            assert(term as int == c as int * (b as int)) by {
                if b != 0 {
                    assert(b == 1);
                }
            }
            acc = acc + term;
            i = i + 1;
        }
        acc
    }
}

/// Runs a fresh filter over `samples`: one filtered value per sample.
pub fn filter(samples: &[u8]) -> (out: Vec<u128>)
    ensures
        out@.len() == samples@.len(),
        forall|k: int| 0 <= k < out@.len() ==> out@[k] as int == #[trigger] fir_outputs(samples@)[k],
{
    let mut f = FirFilter::new();
    let mut out: Vec<u128> = Vec::new();
    let mut k: usize = 0;
    while k < samples.len()
        invariant
            k <= samples@.len(),
            f.wf(),
            f.consumed() == samples@.subrange(0, k as int),
            out@.len() == k,
            forall|m: int| 0 <= m < k ==> out@[m] as int == #[trigger] fir_outputs(samples@)[m],
        decreases samples@.len() - k,
    {
        let y = f.push(samples[k]);
        assert(f.consumed() == samples@.subrange(0, k + 1));
        out.push(y);
        k = k + 1;
    }
    out
}

} // verus!
