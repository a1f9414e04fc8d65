use std::collections::VecDeque;

use vstd::prelude::*;

verus! {

/// Bounded first-in first-out queue of samples between the capture thread
/// (which writes processed audio) and the render thread (which reads it at
/// the rate the hardware asks for). When a write would exceed the capacity
/// the oldest samples are dropped.
pub struct SampleBuffer<T> {
    inner: VecDeque<T>,
    capacity: usize,
}

/// The queue after appending `samples` to `queued` and dropping from the
/// front whatever exceeds `capacity`.
pub open spec fn after_write<T>(queued: Seq<T>, samples: Seq<T>, capacity: nat) -> Seq<T> {
    let all = queued + samples;
    if all.len() > capacity {
        all.skip(all.len() - capacity)
    } else {
        all
    }
}

/// While the queue has room, a write appends the samples behind the queued
/// ones, so reading the queue back yields the queued samples and then the
/// written ones, in order.
pub proof fn lemma_write_within_capacity<T>(queued: Seq<T>, samples: Seq<T>, capacity: nat)
    requires
        queued.len() + samples.len() <= capacity,
    ensures
        after_write(queued, samples, capacity) == queued + samples,
        after_write(queued, samples, capacity).skip(queued.len() as int) == samples,
{
    assert((queued + samples).skip(queued.len() as int) =~= samples);
}

/// A write never leaves more than `capacity` samples queued, and it always
/// keeps every sample it wrote (the oldest queued ones are dropped first).
pub proof fn lemma_write_keeps_newest<T>(queued: Seq<T>, samples: Seq<T>, capacity: nat)
    requires
        samples.len() <= capacity,
    ensures
        after_write(queued, samples, capacity).len() <= capacity,
        after_write(queued, samples, capacity).len() >= samples.len(),
        after_write(queued, samples, capacity).skip(
            after_write(queued, samples, capacity).len() - samples.len(),
        ) == samples,
{
    let all = queued + samples;
    let r = after_write(queued, samples, capacity);
    assert(r.skip(r.len() - samples.len()) =~= samples);
}

/// A write onto a queue that holds at most `capacity` samples leaves
/// `min(capacity, queued + written)` samples queued, and they are the
/// newest ones of the queued samples followed by the written ones: only
/// the oldest `queued + written - capacity` are dropped.
pub proof fn lemma_write_drops_only_overflow<T>(queued: Seq<T>, samples: Seq<T>, capacity: nat)
    requires
        queued.len() <= capacity,
    ensures
        after_write(queued, samples, capacity).len() == if queued.len() + samples.len() <= capacity {
            queued.len() + samples.len()
        } else {
            capacity
        },
        after_write(queued, samples, capacity) == (queued + samples).skip(
            queued.len() + samples.len() - after_write(queued, samples, capacity).len(),
        ),
{
    let all = queued + samples;
    if all.len() <= capacity {
        assert(all.skip(0) =~= all);
    }
}

/// A write larger than the whole queue leaves exactly its own last
/// `capacity` samples queued, whatever was queued before.
pub proof fn lemma_oversized_write_keeps_last<T>(queued: Seq<T>, samples: Seq<T>, capacity: nat)
    requires
        samples.len() >= capacity,
    ensures
        after_write(queued, samples, capacity) == samples.skip(samples.len() - capacity),
{
    let all = queued + samples;
    if all.len() > capacity {
        assert(all.skip(all.len() - capacity) =~= samples.skip(samples.len() - capacity));
    } else {
        assert(samples.skip(samples.len() - capacity) =~= samples);
        assert(queued.len() == 0);
        assert(all =~= samples);
    }
}

impl<T: Copy> SampleBuffer<T> {
    /// The queued samples, oldest first.
    pub closed spec fn view(&self) -> Seq<T> {
        self.inner@
    }

    /// The most samples the queue holds.
    pub closed spec fn capacity(&self) -> nat {
        self.capacity as nat
    }

    /// The queue never holds more than its capacity.
    pub closed spec fn wf(&self) -> bool {
        self.inner@.len() <= self.capacity
    }

    /// An empty queue holding at most `capacity` samples.
    pub fn new(capacity: usize) -> (b: Self)
        ensures
            b.wf(),
            b.view() == Seq::<T>::empty(),
            b.capacity() == capacity,
    {
        SampleBuffer { inner: VecDeque::with_capacity(capacity), capacity }
    }

    /// Appends `samples`; when the result would exceed the capacity, the
    /// oldest samples are dropped first (queued ones, then, for a write
    /// larger than the whole queue, the first written ones). Never blocks.
    pub fn write(&mut self, samples: &[T])
        requires
            old(self).wf(),
        ensures
            final(self).wf(),
            final(self).capacity() == old(self).capacity(),
            final(self).view() == after_write(old(self).view(), samples@, old(self).capacity()),
            final(self).view().len() == if old(self).view().len() + samples@.len() <= old(
                self,
            ).capacity() {
                old(self).view().len() + samples@.len()
            } else {
                old(self).capacity()
            },
            final(self).view() == (old(self).view() + samples@).skip(
                old(self).view().len() + samples@.len() - final(self).view().len(),
            ),
    {
        let ghost old_q = self.inner@;
        let n = samples.len();
        let cap = self.capacity;
        // Written samples that would be dropped at once are never queued.
        let first = if n > cap {
            n - cap
        } else {
            0
        };
        let kept = n - first;
        let room = cap - self.inner.len();
        let mut excess: usize = if kept > room {
            kept - room
        } else {
            0
        };
        let ghost drop_count = excess;
        while excess > 0
            invariant
                excess <= drop_count,
                drop_count <= old_q.len(),
                self.inner@ == old_q.skip(drop_count - excess),
                self.capacity == old(self).capacity,
            decreases excess,
        {
            let _ = self.inner.pop_front();
            assert(self.inner@ =~= old_q.skip(drop_count - excess + 1));
            excess = excess - 1;
        }
        let mut i: usize = first;
        while i < n
            invariant
                first <= i <= n,
                n == samples@.len(),
                self.inner@ == old_q.skip(drop_count as int) + samples@.subrange(first as int, i as int),
                self.capacity == old(self).capacity,
            decreases n - i,
        {
            self.inner.push_back(samples[i]);
            assert(samples@.subrange(first as int, i as int + 1) =~= samples@.subrange(
                first as int,
                i as int,
            ).push(samples@[i as int]));
            i = i + 1;
        }
        proof {
            let all = old_q + samples@;
            if all.len() > cap {
                assert(old_q.skip(drop_count as int) + samples@.subrange(first as int, n as int)
                    =~= all.skip(all.len() - cap));
            } else {
                assert(old_q.skip(drop_count as int) + samples@.subrange(first as int, n as int)
                    =~= all);
            }
            lemma_write_drops_only_overflow(old_q, samples@, cap as nat);
        }
    }

    /// Moves up to `out.len()` of the oldest samples into the front of
    /// `out` and returns how many were moved; the rest of `out` is left as
    /// it was.
    pub fn read_into(&mut self, out: &mut [T]) -> (n: usize)
        requires
            old(self).wf(),
        ensures
            final(self).wf(),
            final(self).capacity() == old(self).capacity(),
            n == if old(out)@.len() < old(self).view().len() {
                old(out)@.len()
            } else {
                old(self).view().len()
            },
            final(self).view() == old(self).view().skip(n as int),
            final(out)@.len() == old(out)@.len(),
            final(out)@.take(n as int) == old(self).view().take(n as int),
            final(out)@.skip(n as int) == old(out)@.skip(n as int),
    {
        let limit = out.len();
        self.read_front(out, limit)
    }

    /// Moves up to `limit` (at most `out.len()`) of the oldest samples into
    /// the front of `out` and returns how many were moved; the rest of `out`
    /// is left as it was.
    fn read_front(&mut self, out: &mut [T], limit: usize) -> (n: usize)
        requires
            old(self).wf(),
            limit <= old(out)@.len(),
        ensures
            final(self).wf(),
            final(self).capacity() == old(self).capacity(),
            n == if limit < old(self).view().len() {
                limit as int
            } else {
                old(self).view().len() as int
            },
            final(self).view() == old(self).view().skip(n as int),
            final(out)@.len() == old(out)@.len(),
            final(out)@.take(n as int) == old(self).view().take(n as int),
            final(out)@.skip(n as int) == old(out)@.skip(n as int),
    {
        let ghost old_q = self.inner@;
        let ghost old_out = out@;
        let n = if limit < self.inner.len() {
            limit
        } else {
            self.inner.len()
        };
        let mut i: usize = 0;
        while i < n
            invariant
                i <= n,
                n <= old_q.len(),
                n <= old_out.len(),
                self.inner@ == old_q.skip(i as int),
                out@.len() == old_out.len(),
                forall|j: int| 0 <= j < i ==> out@[j] == old_q[j],
                forall|j: int| i <= j < out@.len() ==> out@[j] == old_out[j],
                self.capacity == old(self).capacity,
            decreases n - i,
        {
            let s = self.inner.pop_front();
            assert(self.inner@ =~= old_q.skip(i as int + 1));
            match s {
                Some(v) => {
                    out[i] = v;
                },
                None => {},
            }
            i = i + 1;
        }
        assert(out@.take(n as int) =~= old_q.take(n as int));
        assert(out@.skip(n as int) =~= old_out.skip(n as int));
        n
    }

    /// How many samples are queued.
    pub fn available(&self) -> (n: usize)
        ensures
            n == self.view().len(),
    {
        self.inner.len()
    }
}


/// The stereo samples a render pass takes from a queue holding `queued`:
/// the oldest `2 * frames` samples, padded with `silence` when the queue
/// runs short.
pub open spec fn stereo_frames<T>(queued: Seq<T>, frames: nat, silence: T) -> Seq<T> {
    Seq::new(
        2 * frames,
        |p: int|
            if p < queued.len() {
                queued[p]
            } else {
                silence
            },
    )
}

/// Sample `p` of an interleaved buffer with `channels` channels, holding the
/// stereo frames `stereo` in channels 0 and 1 and `silence` in the others.
pub open spec fn spread_sample<T>(stereo: Seq<T>, channels: nat, p: int, silence: T) -> T {
    let f = p / channels as int;
    let c = p % channels as int;
    if c == 0 {
        stereo[2 * f]
    } else if c == 1 {
        stereo[2 * f + 1]
    } else {
        silence
    }
}

/// The position of channel `c` of frame `f` in an interleaved buffer with
/// `channels` channels.
pub open spec fn interleaved_index(f: int, c: int, channels: nat) -> int {
    f * channels + c
}

/// The sample of a render pass at channel `c` of frame `f`, for a queue
/// holding `queued`: channel 0 carries the frame's left sample and channel
/// 1 its right sample, taken from the queue in order (silence once the
/// queue runs short), and every further channel carries silence.
pub open spec fn rendered_at<T>(queued: Seq<T>, f: int, c: int, silence: T) -> T {
    if c == 0 {
        if 2 * f < queued.len() {
            queued[2 * f]
        } else {
            silence
        }
    } else if c == 1 {
        if 2 * f + 1 < queued.len() {
            queued[2 * f + 1]
        } else {
            silence
        }
    } else {
        silence
    }
}

/// For every channel count from 2 on, the spread layout puts a frame's
/// left and right samples in its channels 0 and 1 and silence in the
/// others.
pub proof fn lemma_spread_layout<T>(stereo: Seq<T>, channels: nat, f: int, c: int, silence: T)
    requires
        channels >= 2,
        f >= 0,
        0 <= c < channels,
    ensures
        spread_sample(stereo, channels, interleaved_index(f, c, channels), silence) == if c == 0 {
            stereo[2 * f]
        } else if c == 1 {
            stereo[2 * f + 1]
        } else {
            silence
        },
{
    lemma_frame_index(f, c, channels as int);
}

/// A render pass of `frames` frames over any channel count from 2 on
/// writes, at channel `c` of frame `f`, the left sample of the frame's
/// stereo pair for `c == 0`, the right one for `c == 1`, and silence for
/// every other channel; the pairs are the queue's oldest samples in order,
/// padded with silence.
pub proof fn lemma_render_layout<T>(queued: Seq<T>, frames: nat, channels: nat, f: int, c: int, silence: T)
    requires
        channels >= 2,
        0 <= f < frames,
        0 <= c < channels,
    ensures
        0 <= interleaved_index(f, c, channels) < frames * channels,
        spread_sample(
            stereo_frames(queued, frames, silence),
            channels,
            interleaved_index(f, c, channels),
            silence,
        ) == rendered_at(queued, f, c, silence),
{
    lemma_frame_index(f, c, channels as int);
    assert((f + 1) * channels <= frames * channels) by (nonlinear_arith)
        requires
            f + 1 <= frames,
    ;
    lemma_spread_layout(stereo_frames(queued, frames, silence), channels, f, c, silence);
}

proof fn lemma_frame_index(f: int, c: int, ch: int)
    requires
        ch >= 2,
        f >= 0,
        0 <= c < ch,
    ensures
        (f * ch + c) / ch == f,
        (f * ch + c) % ch == c,
        f * ch >= 2 * f,
        (f + 1) * ch == f * ch + ch,
{
    vstd::arithmetic::div_mod::lemma_fundamental_div_mod_converse(f * ch + c, ch, f, c);
    assert(f * ch >= 2 * f) by (nonlinear_arith)
        requires
            ch >= 2,
            f >= 0,
    ;
    assert((f + 1) * ch == f * ch + ch) by (nonlinear_arith);
}

/// Fills one render buffer of `frames` frames with `channels` channels
/// from the stereo queue: channels 0 and 1 of each frame carry the left and
/// right samples taken from the queue, further channels carry `silence`,
/// and a queue that runs short is padded with `silence`. Multi-channel
/// buffers are spread in place, back to front, so no scratch memory is
/// needed.
pub fn fill_render_buffer<T: Copy>(
    ring: &mut SampleBuffer<T>,
    render: &mut [T],
    frames: usize,
    channels: usize,
    silence: T,
)
    requires
        old(ring).wf(),
        channels >= 2,
        old(render)@.len() == frames * channels,
    ensures
        final(ring).wf(),
        final(ring).capacity() == old(ring).capacity(),
        final(ring).view() == old(ring).view().skip(
            if old(ring).view().len() < 2 * frames {
                old(ring).view().len() as int
            } else {
                2 * frames
            },
        ),
        final(render)@.len() == old(render)@.len(),
        forall|p: int|
            0 <= p < final(render)@.len() ==> #[trigger] final(render)@[p] == spread_sample(
                stereo_frames(old(ring).view(), frames as nat, silence),
                channels as nat,
                p,
                silence,
            ),
        forall|f: int, c: int|
            0 <= f < frames && 0 <= c < channels ==> #[trigger] final(render)@[interleaved_index(
                f,
                c,
                channels as nat,
            )] == rendered_at(old(ring).view(), f, c, silence),
{
    let ghost queued = ring.view();
    let ghost stereo = stereo_frames(queued, frames as nat, silence);
    let ghost n_total = render@.len();
    let total = render.len();
    proof {
        assert(2 * frames <= frames * channels) by (nonlinear_arith)
            requires
                channels >= 2,
        ;
    }
    let stereo_count: usize = frames * 2;
    // Take the stereo samples into the front of the buffer.
    let read = ring.read_front(render, stereo_count);
    proof {
        assert forall|p: int| 0 <= p < read implies #[trigger] render@[p] == stereo[p] by {
            assert(render@.take(read as int)[p] == queued.take(read as int)[p]);
        }
    }
    let mut i: usize = read;
    while i < stereo_count
        invariant
            read <= i <= stereo_count,
            stereo_count == 2 * frames,
            stereo_count <= render@.len(),
            render@.len() == n_total,
            read == if queued.len() < 2 * frames {
                queued.len() as int
            } else {
                2 * frames
            },
            stereo == stereo_frames(queued, frames as nat, silence),
            forall|p: int| 0 <= p < i ==> #[trigger] render@[p] == stereo[p],
        decreases stereo_count - i,
    {
        render[i] = silence;
        i = i + 1;
    }
    if channels == 2 {
        proof {
            assert forall|p: int| 0 <= p < render@.len() implies #[trigger] render@[p]
                == spread_sample(stereo, channels as nat, p, silence) by {
                let f = p / 2;
                let c = p % 2;
                assert(p == 2 * f + c);
            }
        }
    } else {
        let mut k: usize = frames;
        while k > 0
            invariant
                k <= frames,
                channels > 2,
                n_total <= usize::MAX,
                render@.len() == n_total,
                n_total == frames * channels,
                stereo.len() == 2 * frames,
                forall|p: int| 0 <= p < 2 * k ==> #[trigger] render@[p] == stereo[p],
                forall|p: int|
                    k * channels <= p < n_total ==> #[trigger] render@[p] == spread_sample(
                        stereo,
                        channels as nat,
                        p,
                        silence,
                    ),
            decreases k,
        {
            let f = k - 1;
            proof {
                lemma_frame_index(f as int, 0, channels as int);
                assert(k * channels <= frames * channels) by (nonlinear_arith)
                    requires
                        k <= frames,
                ;
                assert(2 * f + 1 < n_total);
            }
            let left = render[2 * f];
            let right = render[2 * f + 1];
            let dst = f * channels;
            render[dst] = left;
            render[dst + 1] = right;
            let ghost snap = render@;
            let mut c: usize = 2;
            while c < channels
                invariant
                    2 <= c <= channels,
                    dst + channels <= n_total,
                    n_total <= usize::MAX,
                    render@.len() == n_total,
                    snap.len() == n_total,
                    forall|p: int|
                        0 <= p < n_total && !(dst + 2 <= p < dst + c) ==> #[trigger] render@[p]
                            == snap[p],
                    forall|p: int| dst + 2 <= p < dst + c ==> #[trigger] render@[p] == silence,
                decreases channels - c,
            {
                render[dst + c] = silence;
                c = c + 1;
            }
            proof {
                assert forall|p: int| 0 <= p < 2 * f implies #[trigger] render@[p] == stereo[p] by {
                    assert(render@[p] == snap[p]);
                }
                assert forall|p: int| f * channels <= p < n_total implies #[trigger] render@[p]
                    == spread_sample(stereo, channels as nat, p, silence) by {
                    if p < k * channels {
                        let cc = p - f * channels;
                        lemma_frame_index(f as int, cc, channels as int);
                        assert(p / channels as int == f);
                        assert(p % channels as int == cc);
                        if cc == 0 {
                            assert(render@[p] == snap[p]);
                        } else if cc == 1 {
                            assert(render@[p] == snap[p]);
                        }
                    } else {
                        assert(render@[p] == snap[p]);
                    }
                }
            }
            k = f;
        }
    }
    proof {
        assert forall|f: int, c: int| 0 <= f < frames && 0 <= c < channels implies #[trigger] render@[
            interleaved_index(f, c, channels as nat)] == rendered_at(queued, f, c, silence) by {
            lemma_render_layout(queued, frames as nat, channels as nat, f, c, silence);
        }
    }
}
} // verus!
