//! Catalog of manual-test requirements, expanded into concrete test cases.
//!
//! The crate selects requirements through a chain of Include/Exclude filters,
//! crosses them with the cartesian product of named dimension values, turns
//! each pair into a labelled test case, and compares the rendered issues
//! against the remote tracker's state so that only the missing ones are
//! created on a re-run.

pub mod config;
pub mod github_utils;
pub mod labels;
pub mod migrate;
pub mod permutation;
pub mod reconcile;
pub mod remote;
pub mod selection;
pub mod synthesis;
pub mod text;
pub mod toc;
pub mod types;
