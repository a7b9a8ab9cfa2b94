//! Typed client library for registering task definitions against a workflow
//! orchestration server's metadata API.
//!
//! The library covers the request construction, wire encoding, and
//! error-classification pipeline: building a well-formed JSON POST request,
//! interpreting the response status and body, and mapping every failure mode
//! into a structured error taxonomy. Transport (the actual HTTP exchange) is
//! delegated to an external HTTP engine driven by the embedding application;
//! the library hands it a fully built [`HttpRequest`] and classifies the
//! status and body it returns.

pub mod client;
pub mod codec;
pub mod error;
pub mod json;
pub mod response;
pub mod task;
pub mod text;

pub use error::{Cause, CauseView, Error, InvalidArgument, Kind, Server};
pub use response::{ErrorResponse, ErrorResponseView, ValidationError, ValidationErrorView};
pub use client::{BaseClient, HttpRequest, MetadataClient};
pub use codec::{
    decode_task_def, encode_task_def, encode_task_defs, lemma_task_def_round_trip,
    lemma_task_defs_round_trip,
};
pub use task::TaskDef;
