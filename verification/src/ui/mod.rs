//! What the terminal shows, as styled text.

pub mod styled;
pub mod tool_call;
