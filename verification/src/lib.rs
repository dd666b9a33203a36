//! Decision engine and pipeline orchestrator for semantic releases.
//!
//! The library classifies commit messages into change categories, aggregates
//! them into a version-bump decision, composes a changelog, coordinates a CI
//! build-leadership barrier, and plans the ordered side-effecting steps of a
//! release. All logic here is pure: reading the repository, the environment,
//! and the network belong to the surrounding application.

pub mod commit_analyzer;
pub mod text;
pub mod version;
pub mod changelog;
pub mod ci;
pub mod config;
pub mod github;
pub mod pipeline;
