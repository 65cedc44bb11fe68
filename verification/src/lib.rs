//! Verified core of a host-telemetry and question-answering service.
//!
//! The crate holds the decisions of the service as plain functions over plain
//! values, each with a contract that Verus proves: how host counters are
//! aggregated into a sample, how ingested samples are retained, ordered and
//! fanned out to live viewers, how knowledge documents are stored and ranked
//! by distance, and how a prompt is assembled and a generation reply decoded.
//! Sockets, databases, model inference and floating-point arithmetic belong to
//! the program around this crate.

pub mod agent;
pub mod ai;
pub mod handlers;
pub mod history;
pub mod hub;
pub mod json;
pub mod ranking;
pub mod seeder;
pub mod shared;
pub mod state;
pub mod store;
