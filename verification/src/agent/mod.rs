//! The agent side: what the engine is asked to do and what it reports back.

pub mod engine_event;
pub mod follow;
pub mod line_document;
pub mod run_target;
pub mod types;
pub mod wire;
pub mod workflow_tail;
