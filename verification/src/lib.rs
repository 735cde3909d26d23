//! Configuration schema tooling: feature flags, git remote parsing,
//! JSON key ordering and schema post-processing.

pub mod text;
pub mod json;
pub mod sorting;
pub mod json_sort;
pub mod ordering;
pub mod schema_transforms;
pub mod features;
pub mod generate;
pub mod git_config;
pub mod cli;
