//! Error taxonomy of the engine.
//!
//! Buffer- and event-level conditions are advisory and never surface as
//! errors; the variants here are the ones that dispatch, configuration,
//! discovery and the remote registry report to callers.  A runtime's
//! per-request failure travels inside the response, not here.

use vstd::prelude::*;

verus! {

#[derive(Debug)]
pub enum EngineError {
    /// Intake was asked for a model that is not registered.
    ModelNotFound { model_name: String },
    /// The remote registry answered with a non-success status.
    RegistryFailure { status: u16, body: String },
    /// The remote registry could not be reached or its answer could not
    /// be decoded.
    RegistryTransport { message: String },
    /// A configuration value was out of range.
    InvalidConfiguration { message: String },
    /// A runtime violated its batch contract, e.g. returned fewer
    /// responses than it was given requests.
    RuntimeProtocolError { message: String },
    /// A pending response can no longer be delivered because the
    /// dispatcher dropped its sending side.
    DispatcherUnavailable,
    /// A discovery source yielded no valid model identity.
    SourceRejected,
}

impl EngineError {
    /// Short stable label for the error class, for front-ends that map
    /// errors onto protocol status codes.
    pub fn kind_label(&self) -> (r: &'static str)
        ensures
            r@ == match *self {
                EngineError::ModelNotFound { .. } => "model_not_found"@,
                EngineError::RegistryFailure { .. } => "registry_failure"@,
                EngineError::RegistryTransport { .. } => "registry_transport"@,
                EngineError::InvalidConfiguration { .. } => "invalid_configuration"@,
                EngineError::RuntimeProtocolError { .. } => "runtime_protocol_error"@,
                EngineError::DispatcherUnavailable => "dispatcher_unavailable"@,
                EngineError::SourceRejected => "source_rejected"@,
            },
    {
        match *self {
            EngineError::ModelNotFound { .. } => "model_not_found",
            EngineError::RegistryFailure { .. } => "registry_failure",
            EngineError::RegistryTransport { .. } => "registry_transport",
            EngineError::InvalidConfiguration { .. } => "invalid_configuration",
            EngineError::RuntimeProtocolError { .. } => "runtime_protocol_error",
            EngineError::DispatcherUnavailable => "dispatcher_unavailable",
            EngineError::SourceRejected => "source_rejected",
        }
    }
}

} // verus!
