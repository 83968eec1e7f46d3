//! Registries: what is asked of each, and how its answers become
//! [`Package`](crate::model::Package)s.
//!
//! No API keys anywhere: every registry used here has a keyless public read API.

pub mod collect;
pub mod crates_io;
pub mod deps_dev;
pub mod json;
pub mod maven;
pub mod mcp;
pub mod npm;
pub mod nuget;
pub mod osv;
pub mod pypi;
pub mod seen;
pub mod url;
