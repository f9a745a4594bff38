//! How events change the application.

pub mod workflow_progress;
