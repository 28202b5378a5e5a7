//! The capability every pluggable model runtime implements.

use vstd::prelude::*;
use crate::inference::InferenceRequest;
use crate::inference::InferenceResponse;
use crate::model_id::ModelId;

verus! {

/// A per-model inference executor.  `process_batch` is expected to
/// return one response per request, aligned to the input order; the
/// dispatcher does not rely on that expectation, and answers any
/// shortfall with protocol-error responses for the callers left over.
/// A runtime reports per-request failures inside the response, never by
/// panicking or by raising an error to the dispatcher.
pub trait InferenceRuntime: Sized {
    /// Identity of the model this runtime serves.
    fn model_id(&self) -> ModelId;

    /// Runs one request on its own.
    fn process_single(&self, request: &InferenceRequest) -> InferenceResponse;

    /// Runs a whole drained batch.
    fn process_batch(&self, requests: Vec<InferenceRequest>) -> Vec<InferenceResponse>;
}

} // verus!
