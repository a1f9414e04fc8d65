use vstd::prelude::*;

verus! {

/// How strongly crossfeed blends the two channels together.
#[derive(Debug, Clone, Copy, PartialEq, Eq, Structural)]
pub enum CrossfeedLevel {
    /// 25 % blend, the default.
    Mild,
    /// 40 % blend.
    Moderate,
    /// 55 % blend.
    Strong,
}

impl Default for CrossfeedLevel {
    fn default() -> (r: Self)
        ensures
            r == CrossfeedLevel::Mild,
    {
        CrossfeedLevel::Mild
    }
}

/// Crossfeed settings stored inside each profile.
#[derive(Debug, Clone, Copy, PartialEq, Eq, Structural)]
pub struct CrossfeedConfig {
    /// Whether crossfeed processing is active for this profile.
    pub enabled: bool,
    /// Blend strength.
    pub level: CrossfeedLevel,
}

/// Crossfeed is off by default, at the mild level.
pub open spec fn default_crossfeed() -> CrossfeedConfig {
    CrossfeedConfig { enabled: false, level: CrossfeedLevel::Mild }
}

impl Default for CrossfeedConfig {
    fn default() -> (r: Self)
        ensures
            r == default_crossfeed(),
    {
        CrossfeedConfig { enabled: false, level: CrossfeedLevel::Mild }
    }
}


/// Slots in each crossfeed delay ring (0.3 ms at 192 kHz with headroom).
pub const DELAY_CAPACITY: usize = 64;

/// `samples` kept within `[1, DELAY_CAPACITY - 1]`.
pub open spec fn spec_clamp_delay(samples: usize) -> usize {
    if samples < 1 {
        1
    } else if samples > DELAY_CAPACITY - 1 {
        (DELAY_CAPACITY - 1) as usize
    } else {
        samples
    }
}

/// A delay converted to samples is kept within `[1, DELAY_CAPACITY - 1]` so
/// that the read position never meets the slot being written.
pub fn clamp_delay(samples: usize) -> (d: usize)
    ensures
        d == spec_clamp_delay(samples),
{
    if samples < 1 {
        1
    } else if samples > DELAY_CAPACITY - 1 {
        DELAY_CAPACITY - 1
    } else {
        samples
    }
}

/// The pair of ring buffers that delay the low-passed left and right
/// signals before they are blended into the opposite ear. Both rings share
/// one write head and advance together, one frame per push.
pub struct DelayRing<T> {
    left: Vec<T>,
    right: Vec<T>,
    write: usize,
    delay: usize,
}

impl<T: Copy> DelayRing<T> {
    /// Left ring contents by slot.
    pub closed spec fn left(&self) -> Seq<T> {
        self.left@
    }

    /// Right ring contents by slot.
    pub closed spec fn right(&self) -> Seq<T> {
        self.right@
    }

    /// The slot the next push writes.
    pub closed spec fn write_pos(&self) -> nat {
        self.write as nat
    }

    /// The delay, in frames.
    pub closed spec fn delay(&self) -> nat {
        self.delay as nat
    }

    /// Both rings have `DELAY_CAPACITY` slots, the head is inside them and
    /// the delay is within `[1, DELAY_CAPACITY - 1]`.
    pub closed spec fn wf(&self) -> bool {
        &&& self.left@.len() == DELAY_CAPACITY
        &&& self.right@.len() == DELAY_CAPACITY
        &&& self.write < DELAY_CAPACITY
        &&& 1 <= self.delay < DELAY_CAPACITY
    }

    /// The left and right frames pushed `k` pushes ago (`k` = 1 is the most
    /// recent), for `1 <= k <= DELAY_CAPACITY`.
    pub open spec fn pushed_ago(&self, k: int) -> (T, T) {
        let slot = (self.write_pos() + DELAY_CAPACITY - k) % (DELAY_CAPACITY as int);
        (self.left()[slot], self.right()[slot])
    }

    /// Rings filled with `silence`, head at slot 0, delay `delay` (clamped
    /// into range).
    pub fn new(silence: T, delay: usize) -> (r: Self)
        ensures
            r.wf(),
            r.write_pos() == 0,
            r.delay() == spec_clamp_delay(delay),
            r.left() == Seq::new(DELAY_CAPACITY as nat, |i: int| silence),
            r.right() == Seq::new(DELAY_CAPACITY as nat, |i: int| silence),
    {
        let mut left: Vec<T> = Vec::new();
        let mut right: Vec<T> = Vec::new();
        let mut i: usize = 0;
        while i < DELAY_CAPACITY
            invariant
                i <= DELAY_CAPACITY,
                left@ == Seq::new(i as nat, |j: int| silence),
                right@ == Seq::new(i as nat, |j: int| silence),
            decreases DELAY_CAPACITY - i,
        {
            left.push(silence);
            right.push(silence);
            assert(left@ =~= Seq::new(i as nat + 1, |j: int| silence));
            assert(right@ =~= Seq::new(i as nat + 1, |j: int| silence));
            i = i + 1;
        }
        DelayRing { left, right, write: 0, delay: clamp_delay(delay) }
    }

    /// Sets the delay (clamped into range); ring contents are kept.
    pub fn set_delay(&mut self, delay: usize)
        requires
            old(self).wf(),
        ensures
            final(self).wf(),
            final(self).delay() == spec_clamp_delay(delay),
            final(self).left() == old(self).left(),
            final(self).right() == old(self).right(),
            final(self).write_pos() == old(self).write_pos(),
    {
        self.delay = clamp_delay(delay);
    }

    /// Pushes one frame and returns the left and right frames pushed
    /// `delay()` pushes before it. Every older frame moves one step further
    /// back.
    pub fn push_and_read(&mut self, left: T, right: T) -> (out: (T, T))
        requires
            old(self).wf(),
        ensures
            final(self).wf(),
            final(self).delay() == old(self).delay(),
            out == old(self).pushed_ago(old(self).delay() as int),
            final(self).pushed_ago(1) == (left, right),
            forall|k: int|
                1 <= k < DELAY_CAPACITY ==> #[trigger] final(self).pushed_ago(k + 1) == old(
                    self,
                ).pushed_ago(k),
    {
        let w = self.write;
        self.left.set(w, left);
        self.right.set(w, right);
        let read = (w + DELAY_CAPACITY - self.delay) % DELAY_CAPACITY;
        let out = (self.left[read], self.right[read]);
        self.write = (w + 1) % DELAY_CAPACITY;
        proof {
            let cap = DELAY_CAPACITY as int;
            assert(read != w);
            assert forall|k: int| 1 <= k < DELAY_CAPACITY implies #[trigger] self.pushed_ago(k + 1)
                == old(self).pushed_ago(k) by {
                let s_new = (self.write + cap - (k + 1)) % cap;
                let s_old = (w + cap - k) % cap;
                assert(s_new == s_old);
                assert(s_old != w);
            }
        }
        out
    }
}

} // verus!
