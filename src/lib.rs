//! A reference-documentation store: registries of named references and bundles,
//! a federating repository with deterministic name resolution, per-project
//! manifests, and the decisions that drive materialization into a project tree.

pub mod config;
pub mod error;
pub mod facade;
pub mod filter;
pub mod git;
pub mod laws;
pub mod model;
pub mod namemap;
pub mod names;
pub mod project;
pub mod registry;
pub mod render;
pub mod repository;
pub mod search;
pub mod sync;
pub mod text;
pub mod textfile;

pub use error::RefstoreError;
