//! Copies container images, multi-architecture ones too, to private ECR
//! repositories across the configured regions.
//!
//! The library holds the decisions: which images a command line or a manifest
//! names, which registry each region has, in which order the outside services
//! are asked and what follows from each of their answers. Files, network and
//! clocks are the caller's.

pub mod config;
pub mod error;
pub mod laws;
pub mod manifest;
pub mod model;
pub mod outcomes;
pub mod paths;
pub mod publish;
pub mod registry;
pub mod retry;
pub mod run;
pub mod steps;
pub mod text;
