//! Per-model inference buffer: a ring of requests plus watermark
//! tracking and event reporting.

use vstd::prelude::*;
use crate::events::BufferEvent;
use crate::inference::InferenceRequest;
use crate::ring::CircularBuffer;
use crate::ring::pushed_contents;
use crate::ring::pushed_cursor;

verus! {

/// Whether a buffer holding `len` of `cap` requests sits at or above a
/// watermark of `pct` percent.  Stated over the exact fraction, so no
/// rounding is involved: `len / cap >= pct / 100`.
pub open spec fn above_threshold(len: int, cap: int, pct: int) -> bool {
    100 * len >= pct * cap
}

/// The requests that survive in a buffer of capacity `cap` after the
/// whole of `hist` was pushed since the last drain: the most recent
/// `cap` of them, in push order.
pub open spec fn surviving_history(hist: Seq<InferenceRequest>, cap: int) -> Seq<InferenceRequest> {
    if hist.len() as int >= cap {
        hist.skip(hist.len() as int - cap)
    } else {
        hist
    }
}

/// A fixed-capacity request buffer for one model.  Requests overwrite the
/// oldest entry once the buffer is full.  Crossing the configured
/// watermark from below is reported exactly once until the next drain;
/// reaching capacity is reported on every push that leaves the buffer
/// full.
///
/// The buffer carries, as ghost state, the history of requests pushed
/// since the last drain; its invariant says that the chronologically
/// ordered contents are exactly the most recent `capacity` entries of
/// that history, which is what ties a drained batch back to the callers
/// that submitted it.
pub struct InferenceBuffer {
    ring: CircularBuffer<InferenceRequest>,
    model_id: String,
    threshold_pct: u32,
    was_above_threshold: bool,
    history: Ghost<Seq<InferenceRequest>>,
}

impl InferenceBuffer {
    /// Buffered requests in storage order.
    pub closed spec fn contents(&self) -> Seq<InferenceRequest> {
        self.ring@
    }

    pub closed spec fn spec_capacity(&self) -> int {
        self.ring.spec_capacity()
    }

    pub closed spec fn spec_cursor(&self) -> int {
        self.ring.spec_cursor()
    }

    pub closed spec fn spec_model_id(&self) -> Seq<char> {
        self.model_id@
    }

    /// Watermark in percent of the capacity.
    pub closed spec fn spec_threshold_pct(&self) -> int {
        self.threshold_pct as int
    }

    /// Rising-edge state: set when an emitted threshold event has not yet
    /// been cleared by a drain.
    pub closed spec fn spec_was_above(&self) -> bool {
        self.was_above_threshold
    }

    /// Requests pushed since the last drain, oldest first.
    pub closed spec fn spec_history(&self) -> Seq<InferenceRequest> {
        self.history@
    }

    /// Well-formedness of the underlying ring.
    pub closed spec fn ring_wf(&self) -> bool {
        self.ring.wf()
    }

    pub open spec fn wf(&self) -> bool {
        &&& self.ring_wf()
        &&& 1 <= self.spec_capacity()
        &&& 0 <= self.spec_threshold_pct() <= 100
        &&& self.contents().len() == vstd::math::min(
            self.spec_history().len() as int,
            self.spec_capacity(),
        )
        &&& self.spec_cursor() == (self.spec_history().len() as int) % self.spec_capacity()
        &&& self.chron_contents() == surviving_history(self.spec_history(), self.spec_capacity())
    }

    /// Buffered requests in chronological order: once the ring has
    /// wrapped, the oldest surviving request sits at the cursor.
    pub open spec fn chron_contents(&self) -> Seq<InferenceRequest> {
        if self.contents().len() == self.spec_capacity() {
            self.contents().subrange(self.spec_cursor(), self.contents().len() as int)
                + self.contents().subrange(0, self.spec_cursor())
        } else {
            self.contents()
        }
    }

    pub fn new(capacity: usize, model_id: String, threshold_pct: u32) -> (r: Self)
        requires
            1 <= capacity,
            threshold_pct <= 100,
        ensures
            r.wf(),
            r.contents() == Seq::<InferenceRequest>::empty(),
            r.spec_capacity() == capacity,
            r.spec_cursor() == 0,
            r.spec_model_id() == model_id@,
            r.spec_threshold_pct() == threshold_pct,
            !r.spec_was_above(),
            r.spec_history() == Seq::<InferenceRequest>::empty(),
    {
        let r = InferenceBuffer {
            ring: CircularBuffer::new(capacity),
            model_id,
            threshold_pct,
            was_above_threshold: false,
            history: Ghost(Seq::empty()),
        };
        proof {
            vstd::arithmetic::div_mod::lemma_small_mod(0nat, capacity as nat);
            assert(r.chron_contents() =~= surviving_history(r.spec_history(), capacity as int));
        }
        r
    }

    pub fn len(&self) -> (r: usize)
        ensures
            r == self.contents().len(),
    {
        self.ring.len()
    }

    pub fn capacity(&self) -> (r: usize)
        ensures
            r == self.spec_capacity(),
    {
        self.ring.capacity()
    }

    pub fn is_empty(&self) -> (r: bool)
        ensures
            r == (self.contents().len() == 0),
    {
        self.ring.is_empty()
    }

    /// Fill level in whole percent, rounded down.
    pub fn fill_percentage(&self) -> (r: u32)
        requires
            self.wf(),
        ensures
            r as int == 100 * (self.contents().len() as int) / self.spec_capacity(),
            r <= 100,
    {
        let len = self.ring.len();
        let cap = self.ring.capacity();
        let num: u128 = 100u128 * (len as u128);
        let q: u128 = num / (cap as u128);
        proof {
            vstd::arithmetic::div_mod::lemma_div_is_ordered(
                100 * (len as int),
                100 * (cap as int),
                cap as int,
            );
            vstd::arithmetic::div_mod::lemma_div_multiples_vanish(100, cap as int);
        }
        q as u32
    }

    /// Pushes one request and reports the events the push raised, the
    /// threshold crossing first.  The threshold event fires exactly when
    /// the new fill level sits at or above the watermark and the previous
    /// crossing flag was clear; the full event fires exactly when the
    /// push leaves the buffer at capacity.
    pub fn push(&mut self, request: InferenceRequest) -> (r: (
        Option<BufferEvent>,
        Option<BufferEvent>,
    ))
        requires
            old(self).wf(),
        ensures
            final(self).wf(),
            final(self).spec_capacity() == old(self).spec_capacity(),
            final(self).spec_model_id() == old(self).spec_model_id(),
            final(self).spec_threshold_pct() == old(self).spec_threshold_pct(),
            final(self).contents() == pushed_contents(
                old(self).contents(),
                old(self).spec_cursor(),
                old(self).spec_capacity(),
                request,
            ),
            final(self).spec_cursor() == pushed_cursor(old(self).spec_cursor(), old(self).spec_capacity()),
            final(self).spec_history() == old(self).spec_history().push(request),
            final(self).spec_was_above() == above_threshold(
                final(self).contents().len() as int,
                old(self).spec_capacity(),
                old(self).spec_threshold_pct(),
            ),
            r.0 is Some <==> (above_threshold(
                final(self).contents().len() as int,
                old(self).spec_capacity(),
                old(self).spec_threshold_pct(),
            ) && !old(self).spec_was_above()),
            r.0 matches Some(e) ==> e matches BufferEvent::ThresholdReached {
                model_id,
                current_size,
                capacity,
                fill_percentage,
            } && model_id@ == old(self).spec_model_id()
                && current_size as int == final(self).contents().len() as int
                && capacity as int == old(self).spec_capacity()
                && fill_percentage as int
                    == 100 * (final(self).contents().len() as int) / old(self).spec_capacity(),
            r.1 is Some <==> final(self).contents().len() == old(self).spec_capacity(),
            r.1 matches Some(e) ==> e matches BufferEvent::BufferFull {
                model_id,
                current_size,
                capacity,
            } && model_id@ == old(self).spec_model_id()
                && current_size as int == final(self).contents().len() as int
                && capacity as int == old(self).spec_capacity(),
    {
        let ghost prev = *self;
        self.ring.push(request);
        self.history = Ghost(self.history@.push(request));
        proof {
            lemma_history_push(prev, *self, request);
        }
        let len = self.ring.len();
        let cap = self.ring.capacity();
        proof {
            assert((self.threshold_pct as u128) * (cap as u128) <= 100u128 * (usize::MAX as u128))
                by (nonlinear_arith)
                requires
                    self.threshold_pct <= 100,
                    cap <= usize::MAX,
            ;
        }
        let above = 100u128 * (len as u128) >= (self.threshold_pct as u128) * (cap as u128);
        let threshold_event: Option<BufferEvent> = if above && !self.was_above_threshold {
            let fill = self.fill_percentage();
            Some(
                BufferEvent::ThresholdReached {
                    model_id: self.model_id.clone(),
                    current_size: len,
                    capacity: cap,
                    fill_percentage: fill,
                },
            )
        } else {
            None
        };
        self.was_above_threshold = above;
        let full_event: Option<BufferEvent> = if len == cap {
            Some(
                BufferEvent::BufferFull {
                    model_id: self.model_id.clone(),
                    current_size: len,
                    capacity: cap,
                },
            )
        } else {
            None
        };
        (threshold_event, full_event)
    }

    /// Takes every buffered request out, oldest first, leaving an empty
    /// buffer with a cleared crossing flag, so the watermark can fire
    /// again.
    pub fn drain_contents(&mut self) -> (r: Vec<InferenceRequest>)
        requires
            old(self).wf(),
        ensures
            final(self).wf(),
            final(self).spec_capacity() == old(self).spec_capacity(),
            final(self).spec_model_id() == old(self).spec_model_id(),
            final(self).spec_threshold_pct() == old(self).spec_threshold_pct(),
            final(self).contents() == Seq::<InferenceRequest>::empty(),
            final(self).spec_cursor() == 0,
            !final(self).spec_was_above(),
            final(self).spec_history() == Seq::<InferenceRequest>::empty(),
            r@ == old(self).chron_contents(),
            r@ == surviving_history(old(self).spec_history(), old(self).spec_capacity()),
            r@.len() == old(self).contents().len(),
    {
        let cur = self.ring.cursor();
        let full = self.ring.is_full();
        let mut drained = self.ring.drain_into();
        self.was_above_threshold = false;
        self.history = Ghost(Seq::empty());
        proof {
            vstd::arithmetic::div_mod::lemma_small_mod(0nat, self.spec_capacity() as nat);
        }
        if full && cur > 0 {
            let mut tail = drained.split_off(cur);
            tail.append(&mut drained);
            assert(tail@ =~= old(self).chron_contents());
            tail
        } else {
            assert(drained@ =~= old(self).chron_contents());
            drained
        }
    }
}

/// One push keeps the history invariant: the chronological contents
/// stay equal to the most recent `capacity` entries of the push history.
proof fn lemma_history_push(prev: InferenceBuffer, cur: InferenceBuffer, x: InferenceRequest)
    requires
        prev.wf(),
        cur.ring.wf(),
        cur.spec_capacity() == prev.spec_capacity(),
        cur.spec_threshold_pct() == prev.spec_threshold_pct(),
        cur.contents() == pushed_contents(
            prev.contents(),
            prev.spec_cursor(),
            prev.spec_capacity(),
            x,
        ),
        cur.spec_cursor() == pushed_cursor(prev.spec_cursor(), prev.spec_capacity()),
        cur.spec_history() == prev.spec_history().push(x),
    ensures
        cur.wf(),
{
    let c = prev.spec_capacity();
    let u = prev.spec_cursor();
    let s = prev.contents();
    let h = prev.spec_history();
    let n = h.len() as int;
    // The cursor keeps tracking the history length modulo the capacity.
    vstd::arithmetic::div_mod::lemma_mod_bound(n, c);
    vstd::arithmetic::div_mod::lemma_add_mod_noop(n, 1, c);
    if c == 1 {
        vstd::arithmetic::div_mod::lemma_mod_self_0(c);
        vstd::arithmetic::div_mod::lemma_mod_bound(n + 1, c);
    } else {
        vstd::arithmetic::div_mod::lemma_small_mod(1nat, c as nat);
    }
    assert(cur.spec_cursor() == (n + 1) % c);
    if n < c {
        // Still filling up: storage order is push order.
        vstd::arithmetic::div_mod::lemma_small_mod(n as nat, c as nat);
        assert(u == n);
        assert(s == h);
        assert(cur.contents() == h.push(x));
        if n + 1 < c {
            assert(cur.chron_contents() =~= surviving_history(cur.spec_history(), c));
        } else {
            vstd::arithmetic::div_mod::lemma_mod_self_0(c);
            assert(cur.spec_cursor() == 0);
            assert(cur.chron_contents() =~= cur.contents());
            assert(cur.chron_contents() =~= surviving_history(cur.spec_history(), c));
        }
    } else {
        // Wrapped: the push overwrites the oldest surviving request.
        assert(s.len() == c);
        assert(cur.contents() == s.update(u, x));
        assert(prev.chron_contents() == h.skip(n - c));
        let rotated = prev.chron_contents().drop_first().push(x);
        assert(cur.contents().len() == c);
        assert(cur.chron_contents().len() == c);
        assert(rotated.len() == c);
        broadcast use vstd::seq::axiom_seq_add_index1;
        broadcast use vstd::seq::axiom_seq_add_index2;

        if u + 1 < c {
            vstd::arithmetic::div_mod::lemma_small_mod((u + 1) as nat, c as nat);
            assert(cur.spec_cursor() == u + 1);
            assert forall|t: int| 0 <= t < c implies cur.chron_contents()[t] == rotated[t] by {
                if t < c - (u + 1) {
                    assert(cur.chron_contents()[t] == cur.contents()[u + 1 + t]);
                } else {
                    assert(cur.chron_contents()[t] == cur.contents()[t - (c - (u + 1))]);
                }
                if t < c - 1 {
                    assert(rotated[t] == prev.chron_contents()[t + 1]);
                    if t + 1 < c - u {
                        assert(prev.chron_contents()[t + 1] == s[u + t + 1]);
                    } else {
                        assert(prev.chron_contents()[t + 1] == s[t + 1 - (c - u)]);
                    }
                } else {
                    assert(rotated[t] == x);
                    assert(cur.chron_contents()[t] == cur.contents()[u]);
                }
            }
            assert(cur.chron_contents() =~= rotated);
        } else {
            assert(u == c - 1);
            vstd::arithmetic::div_mod::lemma_mod_self_0(c);
            assert(cur.spec_cursor() == 0);
            assert(cur.chron_contents() =~= rotated);
        }
        assert(surviving_history(cur.spec_history(), c) =~= h.skip(n - c).drop_first().push(x));
        assert(cur.chron_contents() == surviving_history(cur.spec_history(), c));
    }
}

/// Number of threshold events that `n` further pushes raise, starting
/// from fill level `len` with crossing flag `was_above`.  This mirrors
/// `push` exactly: a push grows the fill level to `min(len + 1, cap)`,
/// fires when that level sits at the watermark and the flag is clear,
/// and leaves the flag tracking the fill level.
pub open spec fn threshold_events(len: int, was_above: bool, cap: int, pct: int, n: nat) -> int
    decreases n,
{
    if n == 0 {
        0
    } else {
        let len2 = vstd::math::min(len + 1, cap);
        let fired: int = if above_threshold(len2, cap, pct) && !was_above {
            1
        } else {
            0
        };
        fired + threshold_events(len2, above_threshold(len2, cap, pct), cap, pct, (n - 1) as nat)
    }
}

proof fn lemma_threshold_events_bound(len: int, was_above: bool, cap: int, pct: int, n: nat)
    requires
        0 <= len <= cap,
        was_above ==> above_threshold(len, cap, pct),
    ensures
        threshold_events(len, was_above, cap, pct, n) <= if was_above {
            0int
        } else {
            1int
        },
    decreases n,
{
    if n != 0 {
        let len2 = vstd::math::min(len + 1, cap);
        lemma_threshold_events_bound(
            len2,
            above_threshold(len2, cap, pct),
            cap,
            pct,
            (n - 1) as nat,
        );
    }
}

/// Between two drains at most one threshold event fires: a drain leaves
/// the buffer empty with the crossing flag clear, pushes only grow the
/// fill level, so the watermark is crossed from below at most once.
pub proof fn lemma_at_most_one_threshold_event(cap: int, pct: int, n: nat)
    requires
        1 <= cap,
    ensures
        threshold_events(0, false, cap, pct, n) <= 1,
{
    lemma_threshold_events_bound(0, false, cap, pct, n);
}

} // verus!
