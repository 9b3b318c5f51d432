//! Computes the next semantic version of a project from its current version
//! and the commit messages accumulated since the last release.
//!
//! The crate has three verified parts: a strict parser/formatter for
//! `major.minor.patch` version strings, a classifier that maps a list of
//! commit messages to the bump category they require, and the single-step
//! bump computation. A thin manifest layer reads and rewrites the `version`
//! field of a JSON project manifest through `serde_json`.

pub mod manifest;
pub mod release;
pub mod version;
pub mod version_calculator;
pub mod version_type;
