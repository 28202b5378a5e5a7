//! Core dispatch and batching engine for a multi-protocol inference server.
//!
//! Requests arriving for a model are collected in fixed-capacity ring
//! buffers that overwrite their oldest entry when full.  A per-model
//! inference buffer watches the fill level and reports threshold and
//! buffer-full events; the dispatcher reacts to those events by draining
//! the buffer, running the model's runtime on the batch and routing each
//! response back to the caller that submitted the matching request.
//! Model discovery feeds the registry from directories, URLs, explicit
//! identifiers and a remote model catalog.

pub mod buffer;
pub mod context;
pub mod discovery;
pub mod dispatcher;
pub mod errors;
pub mod events;
pub mod inference;
pub mod mlflow;
pub mod model_id;
pub mod protocol;
pub mod ring;
pub mod runtime;
