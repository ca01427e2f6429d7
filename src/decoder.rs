//! The Manchester decoder: tracks the line level over a stream of symbols,
//! confirms each level change against the two following symbols, and turns
//! the spacing of confirmed changes into bits.
use vstd::prelude::*;

verus! {

/// Number of symbols, counted since the last confirmed change, after which
/// the decoder assumes no edge came within a bit period and resynchronizes.
pub const RESYNC_RUN: usize = 10;

/// The line level that the decoder tracks.
#[derive(Clone, Copy, PartialEq, Eq, Structural, Debug)]
pub enum Level {
    /// No change has been confirmed yet.
    Unknown,
    /// The symbol value of the last confirmed change.
    Known(u8),
}

/// The pending half-bit that decides the polarity of the next emitted bit.
#[derive(Clone, Copy, PartialEq, Eq, Structural, Debug)]
pub enum HalfBit {
    /// Nothing pending.
    Unset,
    /// Set by a resynchronization: the next confirmed change emits a 1.
    Zero,
    /// Set by a confirmed change: the next confirmed change emits a 0.
    One,
}

/// The decoder's state in mathematical terms: the index of the next symbol
/// to read, the tracked level, the run counter and the pending half-bit.
pub struct DecoderModel {
    pub pos: nat,
    pub level: Level,
    pub counter: nat,
    pub pending: HalfBit,
}

/// What reading one symbol does.
pub enum Step {
    /// The stream ends, here or within the two-symbol lookahead.
    Halt,
    /// The symbol was consumed and no bit came out.
    Quiet(DecoderModel),
    /// The symbol was consumed and confirmed a change that emits
    /// `(bit, position)`.
    Emit(DecoderModel, (u8, nat)),
}

/// The state of a decoder that has read nothing.
pub open spec fn initial_model() -> DecoderModel {
    DecoderModel { pos: 0, level: Level::Unknown, counter: 0, pending: HalfBit::Unset }
}

/// One more symbol in the current run: the counter grows, and on reaching
/// `RESYNC_RUN` it restarts and a 1 becomes pending.
pub open spec fn tick(s: DecoderModel) -> DecoderModel {
    if s.counter + 1 >= RESYNC_RUN {
        DecoderModel { counter: 0, pending: HalfBit::Zero, ..s }
    } else {
        DecoderModel { counter: s.counter + 1, ..s }
    }
}

/// Reading the symbol at `s.pos`.
///
/// A symbol equal to the tracked level extends the run. Any other symbol is
/// a candidate change: it is confirmed only when the next two symbols equal
/// it. When the first of them differs, the candidate is noise and the counter
/// grows by 2; when only the second differs, by 3. A confirmed change adopts
/// the new level; if the counter is 0 nothing more happens, else the counter
/// restarts and the pending half-bit decides: `Zero` emits a 1, `One` emits a
/// 0 (both clear it), `Unset` becomes `One` and counts this symbol.
pub open spec fn step(syms: Seq<u8>, s: DecoderModel) -> Step {
    if s.pos >= syms.len() {
        Step::Halt
    } else {
        let p = s.pos;
        let x = syms[p as int];
        let moved = DecoderModel { pos: p + 1, ..s };
        if s.level == Level::Known(x) {
            Step::Quiet(tick(moved))
        } else if p + 1 >= syms.len() {
            Step::Halt
        } else if syms[(p + 1) as int] != x {
            Step::Quiet(DecoderModel { counter: s.counter + 2, ..moved })
        } else if p + 2 >= syms.len() {
            Step::Halt
        } else if syms[(p + 2) as int] != x {
            Step::Quiet(DecoderModel { counter: s.counter + 3, ..moved })
        } else if s.counter == 0 {
            Step::Quiet(DecoderModel { level: Level::Known(x), ..moved })
        } else {
            let changed = DecoderModel { level: Level::Known(x), counter: 0, pending: HalfBit::Unset, ..moved };
            match s.pending {
                HalfBit::Zero => Step::Emit(changed, (1, p)),
                HalfBit::One => Step::Emit(changed, (0, p)),
                HalfBit::Unset => Step::Quiet(DecoderModel { counter: 1, pending: HalfBit::One, ..changed }),
            }
        }
    }
}

/// All bits, with their positions, that a decoder in state `s` emits until
/// the stream ends.
pub open spec fn decoded_from(syms: Seq<u8>, s: DecoderModel) -> Seq<(u8, nat)>
    decreases syms.len() - s.pos,
{
    if s.pos >= syms.len() {
        Seq::empty()
    } else {
        match step(syms, s) {
            Step::Halt => Seq::empty(),
            Step::Quiet(t) => decoded_from(syms, t),
            Step::Emit(t, b) => seq![b].add(decoded_from(syms, t)),
        }
    }
}

/// The bits, with their positions, decoded from the whole symbol stream.
pub open spec fn decoded(syms: Seq<u8>) -> Seq<(u8, nat)> {
    decoded_from(syms, initial_model())
}

/// One call of `next` from state `s`: reads symbols until one emits a bit
/// (the new state and `Some` of the bit) or the stream ends (a finished state,
/// with `pos` at the end, and `None`).
pub open spec fn next_model(syms: Seq<u8>, s: DecoderModel) -> (DecoderModel, Option<(u8, nat)>)
    decreases syms.len() - s.pos,
{
    if s.pos >= syms.len() {
        (s, None)
    } else {
        match step(syms, s) {
            Step::Halt => (DecoderModel { pos: syms.len(), ..s }, None),
            Step::Quiet(t) => next_model(syms, t),
            Step::Emit(t, b) => (t, Some(b)),
        }
    }
}


/// A single-sample glitch, a symbol that differs from the tracked level while
/// the one after it matches the level again, is rejected as noise: the level
/// and the pending half-bit stay, no bit is emitted, and only the run counter
/// advances (by 2).
pub proof fn lemma_glitch_rejected(syms: Seq<u8>, s: DecoderModel, v: u8)
    requires
        s.level == Level::Known(v),
        s.pos + 1 < syms.len(),
        syms[s.pos as int] != v,
        syms[(s.pos + 1) as int] == v,
    ensures
        step(syms, s) == Step::Quiet(DecoderModel { pos: s.pos + 1, counter: s.counter + 2, ..s }),
{
}

/// A glitch inside a run, compared with the clean run: when the symbol at
/// `s.pos` of a run at level `v` is flipped, after the glitch and the symbol
/// that follows it both streams have emitted nothing and agree on position,
/// level and pending half-bit; the glitched run's counter is one higher. This
/// holds while neither run reaches the resynchronization run.
pub proof fn lemma_glitch_against_clean(clean: Seq<u8>, s: DecoderModel, v: u8, w: u8)
    requires
        s.level == Level::Known(v),
        s.pos + 1 < clean.len(),
        clean[s.pos as int] == v,
        clean[(s.pos + 1) as int] == v,
        w != v,
        s.counter + 3 < RESYNC_RUN,
    ensures
        ({
            let glitched = clean.update(s.pos as int, w);
            match (step(clean, s), step(glitched, s)) {
                (Step::Quiet(c1), Step::Quiet(g1)) => match (step(clean, c1), step(glitched, g1)) {
                    (Step::Quiet(c2), Step::Quiet(g2)) => c2.pos == g2.pos && c2.pos == s.pos + 2
                        && c2.level == g2.level && c2.pending == g2.pending && g2.counter == c2.counter
                        + 1,
                    _ => false,
                },
                _ => false,
            }
        }),
{
    let glitched = clean.update(s.pos as int, w);
    assert(glitched[s.pos as int] == w);
    assert(glitched[(s.pos + 1) as int] == v);
    let c1 = tick(DecoderModel { pos: s.pos + 1, ..s });
    let g1 = DecoderModel { pos: s.pos + 1, counter: s.counter + 2, ..s };
    assert(step(clean, s) == Step::Quiet(c1));
    assert(step(glitched, s) == Step::Quiet(g1));
    assert(step(clean, c1) == Step::Quiet(tick(DecoderModel { pos: s.pos + 2, ..c1 })));
    assert(step(glitched, g1) == Step::Quiet(tick(DecoderModel { pos: s.pos + 2, ..g1 })));
}

/// `k` steps over symbols that all equal the tracked level: nothing is
/// emitted, the level stays, the counter ends below the resynchronization
/// run (once a step was taken), and either a resynchronization made a 1
/// pending or the counter simply grew by `k`.
proof fn lemma_steady_run(syms: Seq<u8>, s: DecoderModel, v: u8, k: nat) -> (t: DecoderModel)
    requires
        s.level == Level::Known(v),
        s.pos + k <= syms.len(),
        forall|j: int| s.pos <= j < s.pos + k ==> #[trigger] syms[j] == v,
    ensures
        t.pos == s.pos + k,
        t.level == s.level,
        decoded_from(syms, s) == decoded_from(syms, t),
        k > 0 ==> t.counter < RESYNC_RUN,
        t.pending == HalfBit::Zero || (t.counter == s.counter + k && t.pending == s.pending),
    decreases k,
{
    if k == 0 {
        s
    } else {
        let t0 = lemma_steady_run(syms, s, v, (k - 1) as nat);
        assert(syms[t0.pos as int] == v);
        let t = tick(DecoderModel { pos: t0.pos + 1, ..t0 });
        assert(step(syms, t0) == Step::Quiet(t));
        t
    }
}

/// Resynchronization: after ten or more symbols that all equal the tracked
/// level, the decoder has emitted nothing, still holds the level, has its
/// counter below the resynchronization run and a 1 pending; decoding goes on
/// from that state, so the next confirmed change (with a non-zero counter)
/// emits a 1.
pub proof fn lemma_resync(syms: Seq<u8>, s: DecoderModel, v: u8, k: nat) -> (t: DecoderModel)
    requires
        s.level == Level::Known(v),
        k >= RESYNC_RUN,
        s.pos + k <= syms.len(),
        forall|j: int| s.pos <= j < s.pos + k ==> #[trigger] syms[j] == v,
    ensures
        t.pos == s.pos + k,
        t.level == Level::Known(v),
        t.pending == HalfBit::Zero,
        t.counter < RESYNC_RUN,
        decoded_from(syms, s) == decoded_from(syms, t),
{
    lemma_steady_run(syms, s, v, k)
}

/// The exact counter `c` as held in a `usize`: saturated at `usize::MAX`,
/// which keeps both of its tests (`== 0` and `>= RESYNC_RUN`) exact.
pub open spec fn held_counter(c: nat) -> usize {
    if c > usize::MAX {
        usize::MAX
    } else {
        c as usize
    }
}

/// An emitted bit with its position, as in the model.
pub open spec fn emitted(r: Option<(u8, usize)>) -> Option<(u8, nat)> {
    match r {
        Some((b, p)) => Some((b, p as nat)),
        None => None,
    }
}

/// The model's view of a list of emitted bits.
pub open spec fn bits_view(v: Seq<(u8, usize)>) -> Seq<(u8, nat)> {
    v.map_values(|e: (u8, usize)| (e.0, e.1 as nat))
}

/// The bits that follow a state are those of its next call of `next`, then
/// those that follow the state that call leaves.
pub proof fn lemma_next_then_rest(syms: Seq<u8>, s: DecoderModel)
    ensures
        ({
            let (t, r) = next_model(syms, s);
            match r {
                None => decoded_from(syms, s) == Seq::<(u8, nat)>::empty() && t.pos >= syms.len(),
                Some(b) => decoded_from(syms, s) == seq![b].add(decoded_from(syms, t)) && s.pos < t.pos
                    <= syms.len(),
            }
        }),
    decreases syms.len() - s.pos,
{
    if s.pos < syms.len() {
        match step(syms, s) {
            Step::Quiet(t) => lemma_next_then_rest(syms, t),
            _ => {},
        }
    }
}

/// What the executable step reports.
enum Outcome {
    Halted,
    Quiet,
    Emitted(u8, usize),
}

/// A Manchester decoder over a finite symbol stream; each call of `next`
/// yields the next decoded bit with the index of the symbol that confirmed it.
pub struct Demanchesterer {
    symbols: Vec<u8>,
    pos: usize,
    level: Level,
    counter: usize,
    run: Ghost<nat>,
    pending: HalfBit,
}

impl Demanchesterer {
    /// The symbol stream being decoded.
    pub closed spec fn symbols(&self) -> Seq<u8> {
        self.symbols@
    }

    /// The decoder's state.
    pub closed spec fn model(&self) -> DecoderModel {
        DecoderModel { pos: self.pos as nat, level: self.level, counter: self.run@, pending: self.pending }
    }

    pub closed spec fn wf(&self) -> bool {
        &&& self.pos <= self.symbols@.len()
        &&& self.counter == held_counter(self.run@)
    }

    /// A decoder at the start of `symbols`: level unknown, counter 0, nothing
    /// pending.
    pub fn new(symbols: Vec<u8>) -> (d: Demanchesterer)
        ensures
            d.wf(),
            d.symbols() == symbols@,
            d.model() == initial_model(),
    {
        Demanchesterer {
            symbols,
            pos: 0,
            level: Level::Unknown,
            counter: 0,
            run: Ghost(0),
            pending: HalfBit::Unset,
        }
    }

    /// Adds `k` to the run counter.
    fn count(&mut self, k: usize)
        requires
            old(self).wf(),
        ensures
            final(self).wf(),
            final(self).symbols == old(self).symbols,
            final(self).pos == old(self).pos,
            final(self).level == old(self).level,
            final(self).pending == old(self).pending,
            final(self).run@ == old(self).run@ + k,
    {
        self.counter = self.counter.saturating_add(k);
        self.run = Ghost((self.run@ + k) as nat);
    }

    /// Reads one symbol, as `step` says.
    fn advance(&mut self) -> (o: Outcome)
        requires
            old(self).wf(),
            old(self).pos < old(self).symbols@.len(),
        ensures
            final(self).wf(),
            final(self).symbols() == old(self).symbols(),
            match step(old(self).symbols(), old(self).model()) {
                Step::Halt => o is Halted && final(self).model() == old(self).model(),
                Step::Quiet(t) => o is Quiet && final(self).model() == t,
                Step::Emit(t, b) => o == Outcome::Emitted(b.0, b.1 as usize) && final(self).model() == t,
            },
    {
        let p = self.pos;
        let n = self.symbols.len();
        let x = self.symbols[p];
        if self.level == Level::Known(x) {
            self.pos = p + 1;
            self.count(1);
            if self.counter >= RESYNC_RUN {
                self.counter = 0;
                self.run = Ghost(0);
                self.pending = HalfBit::Zero;
            }
            return Outcome::Quiet;
        }
        if p + 1 >= n {
            return Outcome::Halted;
        }
        if self.symbols[p + 1] != x {
            self.pos = p + 1;
            self.count(2);
            return Outcome::Quiet;
        }
        if p + 2 >= n {
            return Outcome::Halted;
        }
        if self.symbols[p + 2] != x {
            self.pos = p + 1;
            self.count(3);
            return Outcome::Quiet;
        }
        self.pos = p + 1;
        self.level = Level::Known(x);
        if self.counter == 0 {
            return Outcome::Quiet;
        }
        self.counter = 0;
        self.run = Ghost(0);
        match self.pending {
            HalfBit::Zero => {
                self.pending = HalfBit::Unset;
                Outcome::Emitted(1, p)
            },
            HalfBit::One => {
                self.pending = HalfBit::Unset;
                Outcome::Emitted(0, p)
            },
            HalfBit::Unset => {
                self.pending = HalfBit::One;
                self.counter = 1;
                self.run = Ghost(1);
                Outcome::Quiet
            },
        }
    }

    /// The next decoded bit and the index of the symbol that confirmed it, or
    /// `None` once the stream is exhausted (after which it stays `None`).
    pub fn next(&mut self) -> (r: Option<(u8, usize)>)
        requires
            old(self).wf(),
        ensures
            final(self).wf(),
            final(self).symbols() == old(self).symbols(),
            (final(self).model(), emitted(r)) == next_model(old(self).symbols(), old(self).model()),
    {
        let ghost syms = self.symbols@;
        loop
            invariant
                self.wf(),
                self.symbols() == syms,
                syms == old(self).symbols(),
                next_model(syms, self.model()) == next_model(syms, old(self).model()),
            decreases syms.len() - self.pos,
        {
            if self.pos >= self.symbols.len() {
                return None;
            }
            match self.advance() {
                Outcome::Halted => {
                    self.pos = self.symbols.len();
                    return None;
                },
                Outcome::Quiet => {},
                Outcome::Emitted(b, p) => {
                    return Some((b, p));
                },
            }
        }
    }
}


/// Decodes a whole symbol stream: every bit, with the index of the symbol
/// that confirmed it.
pub fn decode(symbols: Vec<u8>) -> (out: Vec<(u8, usize)>)
    ensures
        bits_view(out@) == decoded(symbols@),
{
    let ghost syms = symbols@;
    let mut d = Demanchesterer::new(symbols);
    let mut out: Vec<(u8, usize)> = Vec::new();
    loop
        invariant
            d.wf(),
            d.symbols() == syms,
            syms == symbols@,
            bits_view(out@).add(decoded_from(syms, d.model())) == decoded(syms),
        decreases syms.len() - d.model().pos,
    {
        let ghost before = d.model();
        proof {
            lemma_next_then_rest(syms, before);
        }
        match d.next() {
            None => {
                assert(bits_view(out@).add(Seq::<(u8, nat)>::empty()) =~= bits_view(out@));
                return out;
            },
            Some(b) => {
                let ghost v0 = out@;
                out.push(b);
                assert(bits_view(out@) =~= bits_view(v0).push((b.0, b.1 as nat)));
                assert(bits_view(out@).add(decoded_from(syms, d.model())) == bits_view(v0).add(
                    decoded_from(syms, before),
                ));
            },
        }
    }
}

} // verus!
