//! How tool calls are shown.

pub mod execute;
