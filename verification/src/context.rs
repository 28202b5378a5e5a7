//! Per-model state: the inference buffer, the runtime handle and the
//! tickets of the callers still waiting for a response.

use vstd::prelude::*;
use crate::buffer::InferenceBuffer;
use crate::buffer::above_threshold;
use crate::buffer::surviving_history;
use crate::events::BufferEvent;
use crate::inference::InferenceRequest;

verus! {

/// State kept per registered model.  Instead of holding one end of a
/// response channel, each pending caller is represented by a ticket; the
/// host maps tickets to whatever notification primitive it uses.  The
/// `i`-th ticket belongs to the `i`-th request pushed since the last
/// drain, which is what keeps drained batches and pending callers
/// aligned.
pub struct ModelContext<R> {
    buffer: InferenceBuffer,
    runtime: R,
    pending_tickets: Vec<u64>,
}

impl<R> ModelContext<R> {
    /// Requests pushed into the buffer since the last drain.
    pub open spec fn spec_requests(&self) -> Seq<InferenceRequest> {
        self.spec_buffer().spec_history()
    }

    pub closed spec fn spec_buffer(&self) -> InferenceBuffer {
        self.buffer
    }

    pub closed spec fn spec_tickets(&self) -> Seq<u64> {
        self.pending_tickets@
    }

    pub closed spec fn spec_runtime(&self) -> R {
        self.runtime
    }

    pub open spec fn spec_capacity(&self) -> int {
        self.spec_buffer().spec_capacity()
    }

    pub open spec fn spec_model_id(&self) -> Seq<char> {
        self.spec_buffer().spec_model_id()
    }

    pub open spec fn spec_threshold_pct(&self) -> int {
        self.spec_buffer().spec_threshold_pct()
    }

    pub open spec fn spec_was_above(&self) -> bool {
        self.spec_buffer().spec_was_above()
    }

    pub open spec fn wf(&self) -> bool {
        self.spec_buffer().wf()
    }

    /// One ticket per request pushed since the last drain.  `add_request`
    /// preserves this; a flush breaks it only between draining the buffer
    /// and taking the tickets, and restores it by taking both.
    pub open spec fn aligned(&self) -> bool {
        self.spec_tickets().len() == self.spec_requests().len()
    }

    pub fn new(runtime: R, model_id: String, buffer_capacity: usize, threshold_pct: u32) -> (r:
        Self)
        requires
            1 <= buffer_capacity,
            threshold_pct <= 100,
        ensures
            r.wf(),
            r.aligned(),
            r.spec_requests() == Seq::<InferenceRequest>::empty(),
            r.spec_tickets() == Seq::<u64>::empty(),
            r.spec_capacity() == buffer_capacity,
            r.spec_model_id() == model_id@,
            r.spec_threshold_pct() == threshold_pct,
            !r.spec_was_above(),
            r.spec_runtime() == runtime,
    {
        ModelContext {
            buffer: InferenceBuffer::new(buffer_capacity, model_id, threshold_pct),
            runtime,
            pending_tickets: Vec::new(),
        }
    }

    /// Shared access to the runtime, for running a drained batch.
    pub fn runtime_ref(&self) -> (r: &R)
        ensures
            r == self.spec_runtime(),
    {
        &self.runtime
    }

    /// Admits one request together with its caller's ticket.  The
    /// request goes into the buffer, the ticket onto the pending list,
    /// so pending callers always outnumber or match the buffered
    /// requests one-to-one: after the call the pending list is exactly
    /// as long as the request history since the last drain.
    pub fn add_request(&mut self, request: InferenceRequest, ticket: u64) -> (r: (
        Option<BufferEvent>,
        Option<BufferEvent>,
    ))
        requires
            old(self).wf(),
            old(self).aligned(),
        ensures
            final(self).wf(),
            final(self).aligned(),
            final(self).spec_capacity() == old(self).spec_capacity(),
            final(self).spec_model_id() == old(self).spec_model_id(),
            final(self).spec_threshold_pct() == old(self).spec_threshold_pct(),
            final(self).spec_runtime() == old(self).spec_runtime(),
            final(self).spec_requests() == old(self).spec_requests().push(request),
            final(self).spec_tickets() == old(self).spec_tickets().push(ticket),
            final(self).spec_tickets().len() == final(self).spec_requests().len(),
            final(self).spec_was_above() == above_threshold(
                vstd::math::min(
                    old(self).spec_requests().len() as int + 1,
                    old(self).spec_capacity(),
                ),
                old(self).spec_capacity(),
                old(self).spec_threshold_pct(),
            ),
            r.0 is Some <==> (above_threshold(
                vstd::math::min(
                    old(self).spec_requests().len() as int + 1,
                    old(self).spec_capacity(),
                ),
                old(self).spec_capacity(),
                old(self).spec_threshold_pct(),
            ) && !old(self).spec_was_above()),
            r.0 matches Some(e) ==> e matches BufferEvent::ThresholdReached {
                model_id,
                current_size,
                capacity,
                fill_percentage,
            } && model_id@ == old(self).spec_model_id()
                && current_size as int == vstd::math::min(
                old(self).spec_requests().len() as int + 1,
                old(self).spec_capacity(),
            ) && capacity as int == old(self).spec_capacity()
                && fill_percentage as int == 100 * vstd::math::min(
                old(self).spec_requests().len() as int + 1,
                old(self).spec_capacity(),
            ) / old(self).spec_capacity(),
            r.1 is Some <==> vstd::math::min(
                old(self).spec_requests().len() as int + 1,
                old(self).spec_capacity(),
            ) == old(self).spec_capacity(),
            r.1 matches Some(e) ==> e matches BufferEvent::BufferFull {
                model_id,
                current_size,
                capacity,
            } && model_id@ == old(self).spec_model_id()
                && current_size as int == vstd::math::min(
                old(self).spec_requests().len() as int + 1,
                old(self).spec_capacity(),
            ) && capacity as int == old(self).spec_capacity(),
    {
        proof {
            // The buffer length is the smaller of the history length and
            // the capacity, so one push moves it to the next minimum.
            assert(old(self).spec_buffer().contents().len() == vstd::math::min(
                old(self).spec_requests().len() as int,
                old(self).spec_capacity(),
            ));
        }
        let events = self.buffer.push(request);
        self.pending_tickets.push(ticket);
        events
    }

    /// Current fill: `(length, capacity, percent full)`.
    pub fn get_buffer_info(&self) -> (r: (usize, usize, u32))
        requires
            self.wf(),
        ensures
            r.0 as int == vstd::math::min(self.spec_requests().len() as int, self.spec_capacity()),
            r.1 as int == self.spec_capacity(),
            r.2 as int == 100 * (r.0 as int) / self.spec_capacity(),
    {
        let len = self.buffer.len();
        let cap = self.buffer.capacity();
        let fill = self.buffer.fill_percentage();
        (len, cap, fill)
    }

    /// Takes the buffered requests, oldest first: the most recent
    /// `capacity` requests of the history since the last drain.  The
    /// pending tickets stay; a flush takes them right after, under the
    /// same exclusive borrow.
    pub fn drain_buffer_contents(&mut self) -> (r: Vec<InferenceRequest>)
        requires
            old(self).wf(),
        ensures
            final(self).wf(),
            final(self).spec_capacity() == old(self).spec_capacity(),
            final(self).spec_model_id() == old(self).spec_model_id(),
            final(self).spec_threshold_pct() == old(self).spec_threshold_pct(),
            final(self).spec_runtime() == old(self).spec_runtime(),
            final(self).spec_requests() == Seq::<InferenceRequest>::empty(),
            final(self).spec_tickets() == old(self).spec_tickets(),
            !final(self).spec_was_above(),
            r@ == surviving_history(old(self).spec_requests(), old(self).spec_capacity()),
            r@.len() == vstd::math::min(
                old(self).spec_requests().len() as int,
                old(self).spec_capacity(),
            ),
    {
        self.buffer.drain_contents()
    }

    /// Takes every pending ticket, oldest first, leaving none.
    pub fn take_pending_requests(&mut self) -> (r: Vec<u64>)
        ensures
            final(self).spec_buffer() == old(self).spec_buffer(),
            final(self).spec_runtime() == old(self).spec_runtime(),
            final(self).spec_tickets() == Seq::<u64>::empty(),
            r@ == old(self).spec_tickets(),
    {
        let mut out: Vec<u64> = Vec::new();
        core::mem::swap(&mut out, &mut self.pending_tickets);
        out
    }
}

} // verus!
