//! Schema-checked structured output from a text-generating model.
//!
//! A `TypeDef` declares the shape that a task's output must have;
//! `validate` reports every violation of it with a path; the sanitizer
//! recovers a JSON candidate from noisy model text; the prompt renderer turns
//! a schema, a task's context and the previous attempt's errors into the
//! next prompt; and the orchestrator decides, attempt by attempt, whether to
//! accept, retry with feedback, or give up after `MAX_ATTEMPTS`.

pub mod dispatch;
pub mod endpoint;
pub mod json;
pub mod orchestrator;
pub mod prompt;
pub mod sanitize;
pub mod shape;
pub mod text;
pub mod types;
