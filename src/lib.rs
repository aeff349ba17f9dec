//! Scaffolding of mobile application projects (Android and OpenHarmony) from
//! bundled templates: identifier validation, placeholder rewriting, asset
//! materialization plans, the per-platform config merge and the decisions of
//! the `init` command.
pub mod app_id;
pub mod rewrite;
pub mod config;
pub mod platform;
pub mod assets;
pub mod init;
