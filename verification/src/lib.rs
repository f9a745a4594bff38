//! Headless driver, workflow progress and packaging rules of the Lingxi AscendC tool.

pub mod agent;
pub mod app;
pub mod cli;
pub mod cli_dispatch;
pub mod embedded_resources;
pub mod headless;
pub mod json;
pub mod order;
pub mod packaging;
pub mod paths;
pub mod raw_json;
pub mod startup;
pub mod text;
pub mod ui;

pub use cli::{
    Cli, CliPermissionMode, Command, DiagnosticsPreset, PrintArgs, PrintOutputFormat,
};
pub use startup::apply_settings_env_overrides;
