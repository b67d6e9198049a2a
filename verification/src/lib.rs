//! Config-driven architectural conformance checks for Rust workspaces.
//!
//! The library holds the rule engine: glob matching, configuration
//! validation, layer classification, the per-file syntax walk over the
//! [`syntax`] model, and report rendering.

pub mod config;
pub mod glob;
pub mod layers;
pub mod pipeline;
pub mod report;
pub mod rules;
pub mod syntax;
pub mod text;
pub mod violations;
pub mod visitor;

pub use config::Config;
pub use pipeline::run;
pub use violations::Violation;
