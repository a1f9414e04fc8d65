use vstd::prelude::*;

verus! {

/// Maximum number of EQ bands in one profile and in the filter chain.
pub const MAX_BANDS: usize = 16;

/// The fixed bank of `MAX_BANDS` filter slots behind the stereo EQ chain.
/// Each slot holds biquad coefficients (`C`) and the delay-line state of
/// both channels (`S`); the first `band_count()` slots are processed in
/// order, the others are skipped. The bank never grows or shrinks, so the
/// audio thread never allocates. Coefficients are computed by the engine
/// from each band's floating-point parameters; this type decides which
/// slot holds what.
pub struct FilterSlots<C, S> {
    coeffs: Vec<C>,
    states: Vec<S>,
    active_count: usize,
    passthrough: C,
    silent: S,
}

impl<C: Copy, S: Copy> FilterSlots<C, S> {
    /// Coefficients of every slot.
    pub closed spec fn coeffs(&self) -> Seq<C> {
        self.coeffs@
    }

    /// Delay-line state of every slot.
    pub closed spec fn states(&self) -> Seq<S> {
        self.states@
    }

    /// How many leading slots are processed.
    pub closed spec fn active(&self) -> nat {
        self.active_count as nat
    }

    /// The identity coefficients.
    pub closed spec fn passthrough(&self) -> C {
        self.passthrough
    }

    /// The zeroed delay-line state.
    pub closed spec fn silent(&self) -> S {
        self.silent
    }

    /// Exactly `MAX_BANDS` slots, at most all of them active.
    pub closed spec fn wf(&self) -> bool {
        &&& self.coeffs@.len() == MAX_BANDS
        &&& self.states@.len() == MAX_BANDS
        &&& self.active_count <= MAX_BANDS
    }

    /// A well-formed bank has exactly `MAX_BANDS` slots, at most all of them
    /// active.
    pub proof fn lemma_bank_shape(&self)
        requires
            self.wf(),
        ensures
            self.coeffs().len() == MAX_BANDS,
            self.states().len() == MAX_BANDS,
            self.active() <= MAX_BANDS,
    {
    }

    /// A bank with no active band: every slot passes audio through and has
    /// zeroed state.
    pub fn new(passthrough: C, silent: S) -> (f: Self)
        ensures
            f.wf(),
            f.coeffs().len() == MAX_BANDS,
            f.states().len() == MAX_BANDS,
            f.active() == 0,
            f.passthrough() == passthrough,
            f.silent() == silent,
            f.coeffs() == Seq::new(MAX_BANDS as nat, |i: int| passthrough),
            f.states() == Seq::new(MAX_BANDS as nat, |i: int| silent),
    {
        let mut coeffs: Vec<C> = Vec::new();
        let mut states: Vec<S> = Vec::new();
        let mut i: usize = 0;
        while i < MAX_BANDS
            invariant
                i <= MAX_BANDS,
                coeffs@ == Seq::new(i as nat, |j: int| passthrough),
                states@ == Seq::new(i as nat, |j: int| silent),
            decreases MAX_BANDS - i,
        {
            coeffs.push(passthrough);
            states.push(silent);
            assert(coeffs@ =~= Seq::new(i as nat + 1, |j: int| passthrough));
            assert(states@ =~= Seq::new(i as nat + 1, |j: int| silent));
            i = i + 1;
        }
        FilterSlots { coeffs, states, active_count: 0, passthrough, silent }
    }

    /// Loads new band coefficients into the first `min(len, MAX_BANDS)`
    /// slots, keeping their delay lines (no click), sets the slots that were
    /// active before and are no longer used back to passthrough, and makes
    /// exactly the loaded slots active.
    pub fn set_bands(&mut self, band_coeffs: &[C])
        requires
            old(self).wf(),
        ensures
            final(self).wf(),
            final(self).coeffs().len() == MAX_BANDS,
            final(self).states().len() == MAX_BANDS,
            final(self).passthrough() == old(self).passthrough(),
            final(self).silent() == old(self).silent(),
            final(self).states() == old(self).states(),
            final(self).active() == if band_coeffs@.len() < MAX_BANDS {
                band_coeffs@.len()
            } else {
                MAX_BANDS as nat
            },
            forall|i: int|
                0 <= i < MAX_BANDS ==> #[trigger] final(self).coeffs()[i] == if i
                    < final(self).active() {
                    band_coeffs@[i]
                } else if i < old(self).active() {
                    old(self).passthrough()
                } else {
                    old(self).coeffs()[i]
                },
    {
        let count = if band_coeffs.len() < MAX_BANDS {
            band_coeffs.len()
        } else {
            MAX_BANDS
        };
        let ghost old_coeffs = self.coeffs@;
        let mut i: usize = 0;
        while i < count
            invariant
                self.active_count == old(self).active_count,
                self.passthrough == old(self).passthrough,
                self.silent == old(self).silent,
                old(self).active_count <= MAX_BANDS,
                self.coeffs@.len() == MAX_BANDS,
                self.states@.len() == MAX_BANDS,
                i <= count <= MAX_BANDS,
                count <= band_coeffs@.len(),
                self.states@ == old(self).states@,
                forall|j: int|
                    0 <= j < MAX_BANDS ==> #[trigger] self.coeffs@[j] == if j < i {
                        band_coeffs@[j]
                    } else {
                        old_coeffs[j]
                    },
            decreases count - i,
        {
            self.coeffs.set(i, band_coeffs[i]);
            i = i + 1;
        }
        let mut j: usize = count;
        while j < self.active_count
            invariant
                self.active_count == old(self).active_count,
                self.passthrough == old(self).passthrough,
                self.silent == old(self).silent,
                old(self).active_count <= MAX_BANDS,
                self.coeffs@.len() == MAX_BANDS,
                self.states@.len() == MAX_BANDS,
                count <= MAX_BANDS,
                count <= j,
                j == count || j <= self.active_count,
                self.states@ == old(self).states@,
                forall|k: int|
                    0 <= k < MAX_BANDS ==> #[trigger] self.coeffs@[k] == if k < count {
                        band_coeffs@[k]
                    } else if k < j {
                        self.passthrough
                    } else {
                        old_coeffs[k]
                    },
            decreases self.active_count - j,
        {
            self.coeffs.set(j, self.passthrough);
            j = j + 1;
        }
        self.active_count = count;
    }

    /// Loads coefficients into slot `index` alone (live editing), keeping
    /// its delay line; makes it active, extending the active range if it
    /// lay beyond. An index past the bank is ignored.
    pub fn update_band(&mut self, index: usize, coeffs: C)
        requires
            old(self).wf(),
        ensures
            final(self).wf(),
            final(self).coeffs().len() == MAX_BANDS,
            final(self).states().len() == MAX_BANDS,
            final(self).passthrough() == old(self).passthrough(),
            final(self).silent() == old(self).silent(),
            final(self).states() == old(self).states(),
            index >= MAX_BANDS ==> final(self).coeffs() == old(self).coeffs() && final(self).active()
                == old(self).active(),
            index < MAX_BANDS ==> final(self).coeffs() == old(self).coeffs().update(
                index as int,
                coeffs,
            ) && final(self).active() == if index < old(self).active() {
                old(self).active()
            } else {
                index as nat + 1
            },
    {
        if index >= MAX_BANDS {
            return;
        }
        self.coeffs.set(index, coeffs);
        if index >= self.active_count {
            self.active_count = index + 1;
        }
    }

    /// Removes active band `index`: the bands after it move down one slot
    /// with their state, the freed last slot becomes a fresh passthrough,
    /// and one band fewer is active. An index past the active bands is
    /// ignored.
    pub fn remove_band(&mut self, index: usize)
        requires
            old(self).wf(),
        ensures
            final(self).wf(),
            final(self).coeffs().len() == MAX_BANDS,
            final(self).states().len() == MAX_BANDS,
            final(self).passthrough() == old(self).passthrough(),
            final(self).silent() == old(self).silent(),
            index >= old(self).active() ==> *final(self) == *old(self),
            index < old(self).active() ==> {
                let last = old(self).active() - 1;
                &&& final(self).active() == last
                &&& forall|i: int|
                    0 <= i < MAX_BANDS ==> #[trigger] final(self).coeffs()[i] == if i < index {
                        old(self).coeffs()[i]
                    } else if i < last {
                        old(self).coeffs()[i + 1]
                    } else if i == last {
                        old(self).passthrough()
                    } else {
                        old(self).coeffs()[i]
                    }
                &&& forall|i: int|
                    0 <= i < MAX_BANDS ==> #[trigger] final(self).states()[i] == if i < index {
                        old(self).states()[i]
                    } else if i < last {
                        old(self).states()[i + 1]
                    } else if i == last {
                        old(self).silent()
                    } else {
                        old(self).states()[i]
                    }
            },
    {
        if index >= self.active_count {
            return;
        }
        let last = self.active_count - 1;
        let ghost old_coeffs = self.coeffs@;
        let ghost old_states = self.states@;
        let mut i: usize = index;
        while i < last
            invariant
                self.active_count == old(self).active_count,
                self.passthrough == old(self).passthrough,
                self.silent == old(self).silent,
                old(self).active_count <= MAX_BANDS,
                self.coeffs@.len() == MAX_BANDS,
                self.states@.len() == MAX_BANDS,
                index <= i <= last,
                last < MAX_BANDS,
                forall|k: int|
                    0 <= k < MAX_BANDS ==> #[trigger] self.coeffs@[k] == if index <= k < i {
                        old_coeffs[k + 1]
                    } else {
                        old_coeffs[k]
                    },
                forall|k: int|
                    0 <= k < MAX_BANDS ==> #[trigger] self.states@[k] == if index <= k < i {
                        old_states[k + 1]
                    } else {
                        old_states[k]
                    },
            decreases last - i,
        {
            let c = self.coeffs[i + 1];
            let s = self.states[i + 1];
            self.coeffs.set(i, c);
            self.states.set(i, s);
            i = i + 1;
        }
        self.coeffs.set(last, self.passthrough);
        self.states.set(last, self.silent);
        self.active_count = last;
    }

    /// Zeroes the delay lines of every slot (the sample rate changed);
    /// coefficients and the active range are kept.
    pub fn reset_states(&mut self)
        requires
            old(self).wf(),
        ensures
            final(self).wf(),
            final(self).coeffs().len() == MAX_BANDS,
            final(self).states().len() == MAX_BANDS,
            final(self).coeffs() == old(self).coeffs(),
            final(self).active() == old(self).active(),
            final(self).passthrough() == old(self).passthrough(),
            final(self).silent() == old(self).silent(),
            final(self).states() == Seq::new(MAX_BANDS as nat, |i: int| old(self).silent()),
    {
        let mut i: usize = 0;
        while i < MAX_BANDS
            invariant
                self.active_count == old(self).active_count,
                self.passthrough == old(self).passthrough,
                self.silent == old(self).silent,
                old(self).active_count <= MAX_BANDS,
                self.coeffs@.len() == MAX_BANDS,
                self.states@.len() == MAX_BANDS,
                i <= MAX_BANDS,
                self.coeffs@ == old(self).coeffs@,
                forall|k: int|
                    0 <= k < i ==> #[trigger] self.states@[k] == self.silent,
            decreases MAX_BANDS - i,
        {
            self.states.set(i, self.silent);
            i = i + 1;
        }
        assert(self.states@ =~= Seq::new(MAX_BANDS as nat, |i: int| old(self).silent()));
    }

    /// Makes every slot pass audio through and deactivates all bands;
    /// delay lines are kept.
    pub fn bypass_all(&mut self)
        requires
            old(self).wf(),
        ensures
            final(self).wf(),
            final(self).coeffs().len() == MAX_BANDS,
            final(self).states().len() == MAX_BANDS,
            final(self).active() == 0,
            final(self).states() == old(self).states(),
            final(self).passthrough() == old(self).passthrough(),
            final(self).silent() == old(self).silent(),
            final(self).coeffs() == Seq::new(MAX_BANDS as nat, |i: int| old(self).passthrough()),
    {
        let mut i: usize = 0;
        while i < MAX_BANDS
            invariant
                self.active_count == old(self).active_count,
                self.passthrough == old(self).passthrough,
                self.silent == old(self).silent,
                old(self).active_count <= MAX_BANDS,
                self.coeffs@.len() == MAX_BANDS,
                self.states@.len() == MAX_BANDS,
                i <= MAX_BANDS,
                self.states@ == old(self).states@,
                forall|k: int|
                    0 <= k < i ==> #[trigger] self.coeffs@[k] == self.passthrough,
            decreases MAX_BANDS - i,
        {
            self.coeffs.set(i, self.passthrough);
            i = i + 1;
        }
        self.active_count = 0;
        assert(self.coeffs@ =~= Seq::new(MAX_BANDS as nat, |i: int| old(self).passthrough()));
    }

    /// The number of active bands.
    pub fn band_count(&self) -> (n: usize)
        ensures
            n == self.active(),
    {
        self.active_count
    }

    /// The coefficients of slot `index`.
    pub fn coefficients(&self, index: usize) -> (c: C)
        requires
            self.wf(),
            index < MAX_BANDS,
        ensures
            c == self.coeffs()[index as int],
    {
        self.coeffs[index]
    }

    /// The delay-line state of slot `index`.
    pub fn state(&self, index: usize) -> (s: S)
        requires
            self.wf(),
            index < MAX_BANDS,
        ensures
            s == self.states()[index as int],
    {
        self.states[index]
    }

    /// Stores the delay-line state of slot `index` after processing.
    pub fn set_state(&mut self, index: usize, state: S)
        requires
            old(self).wf(),
            index < MAX_BANDS,
        ensures
            final(self).wf(),
            final(self).coeffs().len() == MAX_BANDS,
            final(self).states().len() == MAX_BANDS,
            final(self).states() == old(self).states().update(index as int, state),
            final(self).coeffs() == old(self).coeffs(),
            final(self).active() == old(self).active(),
            final(self).passthrough() == old(self).passthrough(),
            final(self).silent() == old(self).silent(),
    {
        self.states.set(index, state);
    }
}

} // verus!
