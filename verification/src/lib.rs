//! Research before you build: the decisions behind a package scout.

pub mod clock;
pub mod laws;
pub mod model;
pub mod rank;
pub mod relevance;
pub mod report;
pub mod request;
pub mod score;
pub mod sources;
pub mod text;
pub mod tools;
