//! Lifecycle events that a per-model buffer reports to the dispatcher.

use vstd::prelude::*;

verus! {

/// Advisory event about the state of one model's buffer.  Events may be
/// dropped when the event channel is full; the dispatcher can always
/// drain a buffer on demand, so no state is carried that the authoritative
/// drain would not reproduce.
pub enum BufferEvent {
    /// The fill level crossed the configured watermark from below.
    ThresholdReached { model_id: String, current_size: usize, capacity: usize, fill_percentage: u32 },
    /// A push left the buffer at capacity; further pushes overwrite the
    /// oldest request.
    BufferFull { model_id: String, current_size: usize, capacity: usize },
    /// Periodic observation of the fill level; never changes any state.
    BufferStats { model_id: String, current_size: usize, capacity: usize, fill_percentage: u32 },
}

impl BufferEvent {
    /// The model this event speaks about.
    pub open spec fn spec_model_id(&self) -> Seq<char> {
        match *self {
            BufferEvent::ThresholdReached { model_id, .. } => model_id@,
            BufferEvent::BufferFull { model_id, .. } => model_id@,
            BufferEvent::BufferStats { model_id, .. } => model_id@,
        }
    }

    /// Whether the dispatcher reacts to this event by flushing the
    /// model's buffer; statistics events are observation only.
    pub open spec fn spec_triggers_flush(&self) -> bool {
        !(*self is BufferStats)
    }
}

} // verus!
