//! Event-driven dispatcher: a registry of model contexts, concurrent
//! intake of requests, and the flush protocol that turns buffered
//! requests into batches and routes each response to its caller.
//!
//! The dispatcher is a state machine driven from outside: the host
//! submits requests, pumps queued events and delivers the completed
//! `(ticket, response)` pairs to whoever waits on each ticket.

use vstd::prelude::*;
use crate::buffer::above_threshold;
use crate::buffer::surviving_history;
use crate::context::ModelContext;
use crate::errors::EngineError;
use crate::events::BufferEvent;
use crate::inference::InferenceError;
use crate::inference::InferenceRequest;
use crate::inference::InferenceResponse;
use crate::inference::str_eq;
use crate::model_id::ModelId;
use crate::model_id::find_name;
use crate::model_id::lemma_find_name_absent;
use crate::model_id::lemma_find_name_found;
use crate::model_id::lemma_find_name_missing;
use crate::runtime::InferenceRuntime;

verus! {

/// Bound of the event queue.  Producers drop events once the queue is
/// full: events are advisory and a flush can always be asked for
/// directly.
pub const EVENT_QUEUE_BOUND: usize = 64;

/// The pairing the flush protocol promises: one pair per ticket, in
/// ticket order; the `j`-th ticket gets the `j`-th response, and every
/// ticket beyond the responses gets a protocol-error failure.
pub open spec fn aligned_with(
    pairs: Seq<(u64, InferenceResponse)>,
    tickets: Seq<u64>,
    responses: Seq<InferenceResponse>,
) -> bool {
    &&& pairs.len() == tickets.len()
    &&& forall|j: int| 0 <= j < tickets.len() ==> (#[trigger] pairs[j]).0 == tickets[j]
    &&& forall|j: int|
        0 <= j < tickets.len() && j < responses.len() ==> (#[trigger] pairs[j]).1 == responses[j]
    &&& forall|j: int|
        responses.len() <= j < tickets.len() ==> ((#[trigger] pairs[j]).1 matches
        InferenceResponse::Failure(e)
            && e.message@ == "batch runtime returned fewer responses than requests"@)
}

/// Pairs each pending ticket with its response, position by position.
/// When the runtime violated its contract and returned too few
/// responses, the tickets left over are answered with a protocol-error
/// failure; surplus responses are dropped.
pub fn align_responses(tickets: Vec<u64>, responses: Vec<InferenceResponse>) -> (r: Vec<
    (u64, InferenceResponse),
>)
    ensures
        aligned_with(r@, tickets@, responses@),
{
    let ghost all_responses = responses@;
    let mut responses = responses;
    let mut out: Vec<(u64, InferenceResponse)> = Vec::new();
    let total = tickets.len();
    let mut j: usize = 0;
    while j < total
        invariant
            j <= total,
            total == tickets@.len(),
            out@.len() == j,
            responses@ == if j < all_responses.len() {
                all_responses.skip(j as int)
            } else {
                Seq::<InferenceResponse>::empty()
            },
            forall|m: int| 0 <= m < j ==> (#[trigger] out@[m]).0 == tickets@[m],
            forall|m: int|
                0 <= m < j && m < all_responses.len() ==> (#[trigger] out@[m]).1
                    == all_responses[m],
            forall|m: int|
                all_responses.len() <= m < j ==> ((#[trigger] out@[m]).1 matches
                InferenceResponse::Failure(e)
                    && e.message@ == "batch runtime returned fewer responses than requests"@),
        decreases total - j,
    {
        let ticket = tickets[j];
        if responses.len() > 0 {
            let resp = responses.remove(0);
            out.push((ticket, resp));
        } else {
            let message = "batch runtime returned fewer responses than requests".to_owned();
            out.push((ticket, InferenceResponse::Failure(InferenceError { message })));
        }
        j = j + 1;
    }
    out
}

/// What one flush produced: the completed `(ticket, response)` pairs,
/// and the tickets whose requests were evicted by overflow before the
/// flush could run.  The host answers evicted tickets as undeliverable.
pub struct FlushOutcome {
    pub completions: Vec<(u64, InferenceResponse)>,
    pub evicted: Vec<u64>,
}

/// Number of events an intake appends to a queue of length `qlen`:
/// a threshold event, then a full event, each dropped when the queue
/// has no room left.
pub open spec fn appended_events(qlen: int, thr: bool, full: bool) -> int {
    let a: int = if thr && qlen < EVENT_QUEUE_BOUND as int {
        1
    } else {
        0
    };
    let b: int = if full && qlen + a < EVENT_QUEUE_BOUND as int {
        1
    } else {
        0
    };
    a + b
}

/// How one flush changes the registry entry `i` and what it hands back:
/// the entry's buffer and pending list are emptied and nothing else
/// changes; with `n` requests pushed since the last drain into a buffer
/// of capacity `cap`, the oldest `n - min(n, cap)` tickets come back as
/// evicted, and every kept ticket gets exactly one completion, in push
/// order.
pub open spec fn flush_transition<R>(
    pre: Seq<(ModelId, ModelContext<R>)>,
    post: Seq<(ModelId, ModelContext<R>)>,
    i: int,
    completions: Seq<(u64, InferenceResponse)>,
    evicted: Seq<u64>,
) -> bool {
    let prev = pre[i];
    let curr = post[i];
    let n = prev.1.spec_requests().len() as int;
    let cap = prev.1.spec_capacity();
    let k = vstd::math::min(n, cap);
    let d = n - k;
    &&& post.len() == pre.len()
    &&& forall|j: int| 0 <= j < pre.len() && j != i ==> post[j] == pre[j]
    &&& curr.0 == prev.0
    &&& curr.1.spec_requests().len() == 0
    &&& curr.1.spec_tickets().len() == 0
    &&& curr.1.spec_capacity() == cap
    &&& curr.1.spec_threshold_pct() == prev.1.spec_threshold_pct()
    &&& curr.1.spec_model_id() == prev.1.spec_model_id()
    &&& curr.1.spec_runtime() == prev.1.spec_runtime()
    &&& !curr.1.spec_was_above()
    &&& evicted == prev.1.spec_tickets().take(d)
    &&& completions.len() == k
    &&& forall|j: int|
        0 <= j < k ==> (#[trigger] completions[j]).0 == prev.1.spec_tickets()[d + j]
}

/// Response routing law.  Take a model context holding `n` requests
/// pushed since the last drain, each aligned with one ticket, in a
/// buffer of capacity `cap`.  Any flush hands the runtime the batch of
/// the last `min(n, cap)` requests in push order, drops the first
/// `d = n - min(n, cap)` tickets as evicted, and for whatever response
/// sequence the runtime produced, the caller whose request sits at
/// batch position `j` — the holder of ticket `d + j` — receives exactly
/// the `j`-th response.
pub proof fn lemma_response_routing(
    requests: Seq<InferenceRequest>,
    tickets: Seq<u64>,
    cap: int,
    completions: Seq<(u64, InferenceResponse)>,
    responses: Seq<InferenceResponse>,
)
    requires
        1 <= cap,
        tickets.len() == requests.len(),
        aligned_with(
            completions,
            tickets.skip(requests.len() - vstd::math::min(requests.len() as int, cap)),
            responses,
        ),
    ensures
        ({
            let n = requests.len() as int;
            let k = vstd::math::min(n, cap);
            let d = n - k;
            &&& surviving_history(requests, cap) == requests.skip(d)
            &&& completions.len() == k
            &&& forall|j: int|
                0 <= j < k && j < responses.len() ==> #[trigger] completions[j] == (
                    tickets[d + j],
                    responses[j],
                )
            &&& forall|j: int|
                0 <= j < k && responses.len() <= j ==> (#[trigger] completions[j]).0 == tickets[d
                    + j]
        }),
{
    let n = requests.len() as int;
    let k = vstd::math::min(n, cap);
    let d = n - k;
    if n < cap {
        assert(surviving_history(requests, cap) =~= requests.skip(0));
    }
    let kept = tickets.skip(d);
    assert forall|j: int| 0 <= j < k && j < responses.len() implies #[trigger] completions[j] == (
        tickets[d + j],
        responses[j],
    ) by {
        assert(kept[j] == tickets[d + j]);
        assert(completions[j].0 == kept[j]);
        assert(completions[j].1 == responses[j]);
    }
    assert forall|j: int| 0 <= j < k && responses.len() <= j implies (
    #[trigger] completions[j]).0 == tickets[d + j] by {
        assert(kept[j] == tickets[d + j]);
    }
}

/// Registry of model contexts plus the event channel that drives
/// flushes.  Intake pushes a request into its model's buffer, records
/// the caller's ticket and queues whatever events the push raised;
/// pumping the queue drains buffers and pairs batch responses with
/// tickets.
pub struct EventDrivenModelManager<R> {
    models: Vec<(ModelId, ModelContext<R>)>,
    event_queue: Vec<BufferEvent>,
    default_buffer_capacity: usize,
    default_threshold_pct: u32,
    next_ticket: u64,
}

impl<R: InferenceRuntime> EventDrivenModelManager<R> {
    pub closed spec fn spec_models(&self) -> Seq<(ModelId, ModelContext<R>)> {
        self.models@
    }

    pub closed spec fn spec_queue(&self) -> Seq<BufferEvent> {
        self.event_queue@
    }

    pub closed spec fn spec_default_capacity(&self) -> int {
        self.default_buffer_capacity as int
    }

    pub closed spec fn spec_default_threshold(&self) -> int {
        self.default_threshold_pct as int
    }

    pub closed spec fn spec_next_ticket(&self) -> u64 {
        self.next_ticket
    }

    /// Whether a model of that name is registered.
    pub open spec fn spec_contains(&self, name: Seq<char>) -> bool {
        find_name(self.spec_models(), name) >= 0
    }

    pub open spec fn wf(&self) -> bool {
        &&& 1 <= self.spec_default_capacity()
        &&& 0 <= self.spec_default_threshold() <= 100
        &&& forall|i: int, j: int|
            0 <= i < j < self.spec_models().len() ==> (#[trigger] self.spec_models()[i]).0@ != (
            #[trigger] self.spec_models()[j]).0@
        &&& forall|i: int|
            0 <= i < self.spec_models().len() ==> {
                let e = #[trigger] self.spec_models()[i];
                &&& e.1.wf()
                &&& e.1.aligned()
                &&& e.1.spec_model_id() == e.0@
            }
    }

    pub fn new() -> (r: Self)
        ensures
            r.wf(),
            r.spec_models().len() == 0,
            r.spec_queue().len() == 0,
            r.spec_default_capacity() == 100,
            r.spec_default_threshold() == 80,
            r.spec_next_ticket() == 0,
    {
        EventDrivenModelManager {
            models: Vec::new(),
            event_queue: Vec::new(),
            default_buffer_capacity: 100,
            default_threshold_pct: 80,
            next_ticket: 0,
        }
    }

    /// Index of the entry registered under `name`.
    fn find_model(&self, name: &str) -> (r: Option<usize>)
        ensures
            match r {
                Some(i) => i < self.spec_models().len() && self.spec_models()[i as int].0@ == name@
                    && find_name(self.spec_models(), name@) == i,
                None => find_name(self.spec_models(), name@) == -1,
            },
    {
        let mut i: usize = 0;
        let total = self.models.len();
        while i < total
            invariant
                i <= total,
                total == self.spec_models().len(),
                forall|j: int| 0 <= j < i ==> (#[trigger] self.spec_models()[j]).0@ != name@,
            decreases total - i,
        {
            if str_eq(self.models[i].0.name(), name) {
                proof {
                    lemma_find_name_found(self.spec_models(), name@, i as int);
                }
                return Some(i);
            }
            i = i + 1;
        }
        proof {
            lemma_find_name_missing(self.spec_models(), name@);
        }
        None
    }

    /// Registers a runtime under its own model identity and returns that
    /// identity.  Registration is idempotent: when the model already has
    /// a context, the existing context is retained and the new runtime
    /// is dropped.
    pub fn register_model(&mut self, runtime: R) -> (r: ModelId)
        requires
            old(self).wf(),
        ensures
            final(self).wf(),
            final(self).spec_contains(r@),
            final(self).spec_queue() == old(self).spec_queue(),
            final(self).spec_default_capacity() == old(self).spec_default_capacity(),
            final(self).spec_default_threshold() == old(self).spec_default_threshold(),
            final(self).spec_next_ticket() == old(self).spec_next_ticket(),
            old(self).spec_contains(r@) ==> final(self).spec_models() == old(self).spec_models(),
            !old(self).spec_contains(r@) ==> {
                let entries = final(self).spec_models();
                let prev = old(self).spec_models();
                &&& entries.len() == prev.len() + 1
                &&& forall|j: int| 0 <= j < prev.len() ==> entries[j] == prev[j]
                &&& entries.last().0@ == r@
                &&& entries.last().1.spec_model_id() == r@
                &&& entries.last().1.spec_requests() == Seq::<InferenceRequest>::empty()
                &&& entries.last().1.spec_tickets() == Seq::<u64>::empty()
                &&& entries.last().1.spec_capacity() == old(self).spec_default_capacity()
                &&& entries.last().1.spec_threshold_pct() == old(self).spec_default_threshold()
                &&& !entries.last().1.spec_was_above()
                &&& entries.last().1.spec_runtime() == runtime
            },
    {
        let id = runtime.model_id();
        match self.find_model(id.name()) {
            Some(_) => id,
            None => {
                let context = ModelContext::new(
                    runtime,
                    id.0.clone(),
                    self.default_buffer_capacity,
                    self.default_threshold_pct,
                );
                let key = id.clone();
                self.models.push((key, context));
                proof {
                    lemma_find_name_absent(old(self).spec_models(), id@);
                    assert forall|i: int, j: int|
                        0 <= i < j < self.spec_models().len() implies (
                    #[trigger] self.spec_models()[i]).0@ != (#[trigger] self.spec_models()[j]).0@ by {
                        if j == self.spec_models().len() - 1 {
                            assert(old(self).spec_models()[i].0@ != id@);
                        }
                    }
                    lemma_find_name_found(
                        self.spec_models(),
                        id@,
                        self.spec_models().len() - 1,
                    );
                }
                id
            },
        }
    }

    /// Admits one request for dispatch.  An unknown model is refused
    /// with `ModelNotFound`.  Otherwise the request joins its model's
    /// buffer, the returned ticket stands for the caller's pending
    /// response, and whatever events the push raised join the event
    /// queue, oldest first, dropped when the queue is full.
    pub fn submit_request(&mut self, request: InferenceRequest) -> (r: Result<u64, EngineError>)
        requires
            old(self).wf(),
        ensures
            final(self).wf(),
            final(self).spec_default_capacity() == old(self).spec_default_capacity(),
            final(self).spec_default_threshold() == old(self).spec_default_threshold(),
            r is Ok <==> old(self).spec_contains(request.model_name@),
            r matches Err(e) ==> *final(self) == *old(self) && (e matches
                EngineError::ModelNotFound { model_name } && model_name@
                == request.model_name@),
            r matches Ok(t) ==> ({
                let i = find_name(old(self).spec_models(), request.model_name@);
                let prev = old(self).spec_models()[i];
                let curr = final(self).spec_models()[i];
                let n = prev.1.spec_requests().len() as int;
                let cap = prev.1.spec_capacity();
                let newlen = vstd::math::min(n + 1, cap);
                let thr = above_threshold(newlen, cap, prev.1.spec_threshold_pct())
                    && !prev.1.spec_was_above();
                let full = newlen == cap;
                let qlen = old(self).spec_queue().len() as int;
                let a: int = if thr && qlen < EVENT_QUEUE_BOUND as int {
                    1
                } else {
                    0
                };
                &&& t == old(self).spec_next_ticket()
                &&& final(self).spec_next_ticket() == if t == u64::MAX {
                    0u64
                } else {
                    (t + 1) as u64
                }
                &&& final(self).spec_models().len() == old(self).spec_models().len()
                &&& forall|j: int|
                    0 <= j < old(self).spec_models().len() && j != i ==> final(self).spec_models()[j] == old(self).spec_models()[j]
                &&& curr.0 == prev.0
                &&& curr.1.spec_requests() == prev.1.spec_requests().push(request)
                &&& curr.1.spec_tickets() == prev.1.spec_tickets().push(t)
                &&& curr.1.spec_capacity() == cap
                &&& curr.1.spec_threshold_pct() == prev.1.spec_threshold_pct()
                &&& curr.1.spec_model_id() == prev.1.spec_model_id()
                &&& curr.1.spec_runtime() == prev.1.spec_runtime()
                &&& curr.1.spec_was_above() == above_threshold(
                    newlen,
                    cap,
                    prev.1.spec_threshold_pct(),
                )
                &&& final(self).spec_queue().len() == qlen + appended_events(qlen, thr, full)
                &&& forall|k: int|
                    0 <= k < qlen ==> final(self).spec_queue()[k] == old(self).spec_queue()[k]
                &&& (thr && qlen < EVENT_QUEUE_BOUND as int) ==> (final(self).spec_queue()[qlen]
                    matches BufferEvent::ThresholdReached {
                        model_id,
                        current_size,
                        capacity,
                        fill_percentage,
                    } && model_id@ == request.model_name@ && current_size as int == newlen
                    && capacity as int == cap && fill_percentage as int == 100 * newlen / cap)
                &&& (full && qlen + a < EVENT_QUEUE_BOUND as int) ==> (final(self).spec_queue()[qlen + a] matches BufferEvent::BufferFull {
                    model_id,
                    current_size,
                    capacity,
                } && model_id@ == request.model_name@ && current_size as int == newlen
                    && capacity as int == cap)
            }),
    {
        let found = self.find_model(request.model_name.as_str());
        match found {
            None => Err(EngineError::ModelNotFound { model_name: request.model_name }),
            Some(i) => {
                let ticket = self.next_ticket;
                self.next_ticket = if ticket == u64::MAX {
                    0
                } else {
                    ticket + 1
                };
                let events = {
                    let context = &mut self.models[i].1;
                    context.add_request(request, ticket)
                };
                self.push_event(events.0);
                self.push_event(events.1);
                Ok(ticket)
            },
        }
    }

    /// Runs the flush protocol for one model: under exclusive access the
    /// buffer and the pending tickets are taken together; the batch is
    /// the most recent `capacity` requests in push order, so the caller
    /// whose request sits at position `j` of the batch holds the `j`-th
    /// kept ticket and receives the `j`-th batch response
    /// (`align_responses`).  Tickets whose requests were overwritten by
    /// overflow come back as evicted, oldest first; the host resolves
    /// them as undeliverable.  Flushing an unknown or empty model does
    /// nothing.
    pub fn flush_model(&mut self, model_name: &str) -> (r: FlushOutcome)
        requires
            old(self).wf(),
        ensures
            final(self).wf(),
            final(self).spec_queue() == old(self).spec_queue(),
            final(self).spec_default_capacity() == old(self).spec_default_capacity(),
            final(self).spec_default_threshold() == old(self).spec_default_threshold(),
            final(self).spec_next_ticket() == old(self).spec_next_ticket(),
            !old(self).spec_contains(model_name@) ==> *final(self) == *old(self)
                && r.completions@.len() == 0 && r.evicted@.len() == 0,
            old(self).spec_contains(model_name@) ==> flush_transition(
                old(self).spec_models(),
                final(self).spec_models(),
                find_name(old(self).spec_models(), model_name@),
                r.completions@,
                r.evicted@,
            ),
    {
        let found = self.find_model(model_name);
        match found {
            None => FlushOutcome { completions: Vec::new(), evicted: Vec::new() },
            Some(i) => {
                let (requests, tickets) = {
                    let context = &mut self.models[i].1;
                    let requests = context.drain_buffer_contents();
                    let tickets = context.take_pending_requests();
                    (requests, tickets)
                };
                let k = requests.len();
                if k == 0 {
                    proof {
                        assert(tickets@ =~= old(self).spec_models()[i as int].1.spec_tickets().take(
                            0,
                        ));
                    }
                    return FlushOutcome { completions: Vec::new(), evicted: tickets };
                }
                let d = tickets.len() - k;
                let mut evicted = tickets;
                let kept = evicted.split_off(d);
                let responses = self.models[i].1.runtime_ref().process_batch(requests);
                let completions = align_responses(kept, responses);
                FlushOutcome { completions, evicted }
            },
        }
    }

    /// Takes the oldest queued event and reacts to it: threshold and
    /// full events flush the model they name, statistics events change
    /// nothing.  Returns what was done, or nothing when the queue was
    /// empty.
    pub fn process_next_event(&mut self) -> (r: Option<FlushOutcome>)
        requires
            old(self).wf(),
        ensures
            final(self).wf(),
            final(self).spec_default_capacity() == old(self).spec_default_capacity(),
            final(self).spec_default_threshold() == old(self).spec_default_threshold(),
            final(self).spec_next_ticket() == old(self).spec_next_ticket(),
            old(self).spec_queue().len() == 0 ==> *final(self) == *old(self) && r is None,
            old(self).spec_queue().len() > 0 ==> ({
                let ev = old(self).spec_queue()[0];
                &&& final(self).spec_queue() == old(self).spec_queue().drop_first()
                &&& r is Some
                &&& !(ev.spec_triggers_flush() && old(self).spec_contains(ev.spec_model_id()))
                    ==> final(self).spec_models() == old(self).spec_models()
                &&& (ev.spec_triggers_flush() && old(self).spec_contains(ev.spec_model_id()))
                    ==> (r matches Some(outcome) && flush_transition(
                    old(self).spec_models(),
                    final(self).spec_models(),
                    find_name(old(self).spec_models(), ev.spec_model_id()),
                    outcome.completions@,
                    outcome.evicted@,
                ))
            }),
    {
        if self.event_queue.len() == 0 {
            return None;
        }
        let event = self.event_queue.remove(0);
        proof {
            assert(self.spec_models() == old(self).spec_models());
            assert(self.wf());
        }
        match event {
            BufferEvent::ThresholdReached { model_id, .. } => {
                Some(self.flush_model(model_id.as_str()))
            },
            BufferEvent::BufferFull { model_id, .. } => {
                Some(self.flush_model(model_id.as_str()))
            },
            BufferEvent::BufferStats { .. } => {
                Some(FlushOutcome { completions: Vec::new(), evicted: Vec::new() })
            },
        }
    }

    /// Snapshot of every registered model's buffer:
    /// `(model, length, capacity, percent full)`.
    pub fn get_model_stats(&self) -> (r: Vec<(String, usize, usize, u32)>)
        requires
            self.wf(),
        ensures
            r@.len() == self.spec_models().len(),
            forall|i: int|
                0 <= i < r@.len() ==> ({
                    let e = #[trigger] self.spec_models()[i];
                    let len = vstd::math::min(e.1.spec_requests().len() as int, e.1.spec_capacity());
                    &&& (#[trigger] r@[i]).0@ == e.0@
                    &&& r@[i].1 as int == len
                    &&& r@[i].2 as int == e.1.spec_capacity()
                    &&& r@[i].3 as int == 100 * len / e.1.spec_capacity()
                }),
    {
        let mut out: Vec<(String, usize, usize, u32)> = Vec::new();
        let total = self.models.len();
        let mut i: usize = 0;
        while i < total
            invariant
                self.wf(),
                i <= total,
                total == self.spec_models().len(),
                out@.len() == i,
                forall|m: int|
                    0 <= m < i ==> ({
                        let e = #[trigger] self.spec_models()[m];
                        let len = vstd::math::min(
                            e.1.spec_requests().len() as int,
                            e.1.spec_capacity(),
                        );
                        &&& (#[trigger] out@[m]).0@ == e.0@
                        &&& out@[m].1 as int == len
                        &&& out@[m].2 as int == e.1.spec_capacity()
                        &&& out@[m].3 as int == 100 * len / e.1.spec_capacity()
                    }),
            decreases total - i,
        {
            let name = self.models[i].0.0.clone();
            let info = self.models[i].1.get_buffer_info();
            out.push((name, info.0, info.1, info.2));
            i = i + 1;
        }
        out
    }

    /// Sets the buffer geometry used for models registered from now on;
    /// existing contexts keep theirs.  The threshold is a percentage and
    /// the capacity must admit at least one request; anything else is
    /// `InvalidConfiguration`.
    /// Queues one statistics heartbeat per registered model, in
    /// registry order, for a host-driven observation tick; heartbeats
    /// beyond the queue bound are dropped.  Consuming a statistics
    /// event never changes any state.
    pub fn publish_buffer_stats(&mut self)
        requires
            old(self).wf(),
        ensures
            final(self).wf(),
            final(self).spec_models() == old(self).spec_models(),
            final(self).spec_default_capacity() == old(self).spec_default_capacity(),
            final(self).spec_default_threshold() == old(self).spec_default_threshold(),
            final(self).spec_next_ticket() == old(self).spec_next_ticket(),
            final(self).spec_queue().len() == if old(self).spec_queue().len() as int
                >= EVENT_QUEUE_BOUND as int {
                old(self).spec_queue().len() as int
            } else {
                vstd::math::min(
                    old(self).spec_queue().len() as int + old(self).spec_models().len() as int,
                    EVENT_QUEUE_BOUND as int,
                )
            },
            forall|k: int|
                0 <= k < old(self).spec_queue().len() ==> final(self).spec_queue()[k] == old(
                    self,
                ).spec_queue()[k],
            forall|k: int|
                old(self).spec_queue().len() <= k < final(self).spec_queue().len()
                    ==> ((#[trigger] final(self).spec_queue()[k]) matches BufferEvent::BufferStats {
                    model_id,
                    current_size,
                    capacity,
                    fill_percentage,
                } && ({
                    let e = old(self).spec_models()[k - old(self).spec_queue().len() as int];
                    let len = vstd::math::min(e.1.spec_requests().len() as int, e.1.spec_capacity());
                    &&& model_id@ == e.0@
                    &&& current_size as int == len
                    &&& capacity as int == e.1.spec_capacity()
                    &&& fill_percentage as int == 100 * len / e.1.spec_capacity()
                })),
    {
        let ghost base = self.spec_queue().len() as int;
        let total = self.models.len();
        let mut i: usize = 0;
        while i < total
            invariant
                i <= total,
                self.wf(),
                total == self.spec_models().len(),
                self.spec_models() == old(self).spec_models(),
                self.spec_default_capacity() == old(self).spec_default_capacity(),
                self.spec_default_threshold() == old(self).spec_default_threshold(),
                self.spec_next_ticket() == old(self).spec_next_ticket(),
                base == old(self).spec_queue().len() as int,
                self.spec_queue().len() as int == if base >= EVENT_QUEUE_BOUND as int {
                    base
                } else {
                    vstd::math::min(base + i as int, EVENT_QUEUE_BOUND as int)
                },
                forall|k: int|
                    0 <= k < base ==> self.spec_queue()[k] == old(self).spec_queue()[k],
                forall|k: int|
                    base <= k < self.spec_queue().len() ==> ((#[trigger] self.spec_queue()[k]) matches
                    BufferEvent::BufferStats { model_id, current_size, capacity, fill_percentage }
                        && ({
                        let e = old(self).spec_models()[k - base];
                        let len = vstd::math::min(
                            e.1.spec_requests().len() as int,
                            e.1.spec_capacity(),
                        );
                        &&& model_id@ == e.0@
                        &&& current_size as int == len
                        &&& capacity as int == e.1.spec_capacity()
                        &&& fill_percentage as int == 100 * len / e.1.spec_capacity()
                    })),
            decreases total - i,
        {
            let model_id = self.models[i].0.0.clone();
            let info = self.models[i].1.get_buffer_info();
            let event = BufferEvent::BufferStats {
                model_id,
                current_size: info.0,
                capacity: info.1,
                fill_percentage: info.2,
            };
            self.push_event(Some(event));
            i = i + 1;
        }
    }

    pub fn set_buffer_config(&mut self, capacity: usize, threshold_pct: u32) -> (r: Result<
        (),
        EngineError,
    >)
        requires
            old(self).wf(),
        ensures
            final(self).wf(),
            r is Ok <==> (1 <= capacity && threshold_pct <= 100),
            r is Ok ==> final(self).spec_default_capacity() == capacity
                && final(self).spec_default_threshold() == threshold_pct
                && final(self).spec_models() == old(self).spec_models()
                && final(self).spec_queue() == old(self).spec_queue()
                && final(self).spec_next_ticket() == old(self).spec_next_ticket(),
            r matches Err(e) ==> *final(self) == *old(self) && e is InvalidConfiguration,
    {
        if threshold_pct > 100 {
            let message = "threshold percentage must be between 0 and 100".to_owned();
            return Err(EngineError::InvalidConfiguration { message });
        }
        if capacity == 0 {
            let message = "buffer capacity must be at least 1".to_owned();
            return Err(EngineError::InvalidConfiguration { message });
        }
        self.default_buffer_capacity = capacity;
        self.default_threshold_pct = threshold_pct;
        proof {
            assert(self.spec_models() == old(self).spec_models());
            assert(self.wf());
        }
        Ok(())
    }

    /// Appends an event unless the queue is full; a dropped event is
    /// only advisory.
    fn push_event(&mut self, event: Option<BufferEvent>)
        ensures
            final(self).spec_models() == old(self).spec_models(),
            final(self).spec_default_capacity() == old(self).spec_default_capacity(),
            final(self).spec_default_threshold() == old(self).spec_default_threshold(),
            final(self).spec_next_ticket() == old(self).spec_next_ticket(),
            final(self).spec_queue() == match event {
                Some(e) => if old(self).spec_queue().len() < EVENT_QUEUE_BOUND as int {
                    old(self).spec_queue().push(e)
                } else {
                    old(self).spec_queue()
                },
                None => old(self).spec_queue(),
            },
    {
        match event {
            Some(e) => {
                if self.event_queue.len() < EVENT_QUEUE_BOUND {
                    self.event_queue.push(e);
                }
            },
            None => {},
        }
    }
}

} // verus!
